//! Pictures off the card: which files are pictures, which of them is shown, and what is written
//! under it.

use vstd::prelude::*;
use vstd::slice::slice_subrange;
use vstd::string::*;
use vstd::utf8::{decode_utf8, decode_utf8_split, encode_utf8, encode_utf8_decode_utf8,
    encode_utf8_first_scalar, encode_utf8_valid_utf8, is_char_boundary,
    is_char_boundary_start_end_of_seq, valid_utf8, valid_utf8_split};
use crate::text::{decimal, from_utf8, push_decimal, utf8_or};

verus! {

/// The longest file name kept, in bytes.
pub const NAME: usize = 64;

/// Bytes of a screen.
pub const SCREEN_BYTES: usize = 259_200;

/// Steps of a picture that can stand at any twelfth of a turn.
pub const STEPS: i32 = 12;

/// Up to 64 bytes of a file name, cut where a character ends.
#[derive(Clone, Copy, Debug)]
pub struct Name {
    bytes: [u8; 64],
    length: usize,
}

/// Where bytes of UTF-8 are cut to fit: at the last character boundary that is not past 64.
pub open spec fn is_cut(bytes: Seq<u8>, at: int) -> bool {
    &&& 0 <= at <= 64
    &&& at <= bytes.len()
    &&& is_char_boundary(bytes, at)
    &&& forall|later: int| at < later <= 64 ==> !#[trigger] is_char_boundary(bytes, later)
}

impl Name {
    #[verifier::type_invariant]
    spec fn wf(self) -> bool {
        &&& self.length <= 64
        &&& valid_utf8(self.bytes@.take(self.length as int))
    }

    /// The bytes that are kept.
    pub closed spec fn kept(&self) -> Seq<u8> {
        self.bytes@.take(self.length as int)
    }

    /// What they say.
    pub open spec fn says(&self) -> Seq<char> {
        decode_utf8(self.kept())
    }

    /// As much of a text as fits: its longest beginning of whole characters in at most 64 bytes,
    /// and all of it where it has no more.
    pub fn new(text: &str) -> (r: Self)
        ensures
            r.kept().len() <= 64,
            r.kept() == text.spec_bytes().take(r.kept().len() as int),
            is_cut(text.spec_bytes(), r.kept().len() as int),
            valid_utf8(r.kept()),
            r.says().is_prefix_of(text@),
            text.spec_bytes().len() <= 64 ==> r.says() == text@,
    {
        let source = text.as_bytes();
        let ghost all = text.spec_bytes();
        assert(valid_utf8(all) && decode_utf8(all) == text@) by {
            encode_utf8_valid_utf8(text@);
            encode_utf8_decode_utf8(text@);
        }
        let mut length: usize = if source.len() < NAME {
            source.len()
        } else {
            NAME
        };
        while !text.is_char_boundary(length)
            invariant
                length <= 64,
                length <= all.len(),
                all == text.spec_bytes(),
                valid_utf8(all),
                forall|later: int| length < later <= 64 ==> !#[trigger] is_char_boundary(all, later),
                all.len() <= 64 ==> length == all.len(),
            decreases length,
        {
            proof {
                is_char_boundary_start_end_of_seq(all);
            }
            length = length - 1;
        }
        let mut bytes: [u8; 64] = [0; 64];
        let mut i: usize = 0;
        while i < length
            invariant
                i <= length,
                length <= 64,
                length <= source.len(),
                forall|k: int| 0 <= k < i ==> bytes[k] == source[k],
            decreases length - i,
        {
            bytes[i] = source[i];
            i = i + 1;
        }
        proof {
            let kept = all.take(length as int);
            assert(bytes@.take(length as int) =~= kept);
            valid_utf8_split(all, length as int);
            decode_utf8_split(all, length as int);
            assert(all.subrange(0, length as int) =~= kept);
            let rest = decode_utf8(all.subrange(length as int, all.len() as int));
            assert(text@ =~= decode_utf8(kept) + rest);
            if all.len() <= 64 {
                assert(kept =~= all);
            }
        }
        Name { bytes, length }
    }

    /// What it says.
    pub fn as_str(&self) -> (r: &str)
        ensures
            r@ == self.says(),
    {
        proof {
            use_type_invariant(self);
        }
        let kept = slice_subrange(&self.bytes, 0, self.length);
        assert(kept@ =~= self.kept());
        match from_utf8(kept) {
            Some(text) => text,
            None => "?",
        }
    }
}

proof fn beginnings_end_at_boundaries(text: Seq<char>, n: int)
    requires
        0 <= n <= text.len(),
    ensures
        is_char_boundary(encode_utf8(text), encode_utf8(text.take(n)).len() as int),
    decreases n,
{
    let bytes = encode_utf8(text);
    encode_utf8_valid_utf8(text);
    if n == 0 {
        assert(text.take(0) =~= Seq::<char>::empty());
    } else {
        let rest = text.drop_first();
        beginnings_end_at_boundaries(rest, n - 1);
        encode_utf8_first_scalar(text);
        assert(text.take(n).drop_first() =~= rest.take(n - 1));
        assert(vstd::utf8::pop_first_scalar(bytes) =~= encode_utf8(rest));
        beginnings_are_no_longer(text, n);
    }
}

proof fn beginnings_are_no_longer(text: Seq<char>, n: int)
    requires
        0 <= n <= text.len(),
    ensures
        encode_utf8(text.take(n)).len() <= encode_utf8(text).len(),
    decreases n,
{
    if n > 0 {
        beginnings_are_no_longer(text.drop_first(), n - 1);
        assert(text.take(n).drop_first() =~= text.drop_first().take(n - 1));
    } else {
        assert(text.take(0) =~= Seq::<char>::empty());
    }
}

/// No longer beginning of a text fits than the one a name keeps.
pub proof fn a_name_keeps_as_much_as_fits(text: Seq<char>, cut: int, n: int)
    requires
        is_cut(encode_utf8(text), cut),
        0 <= n <= text.len(),
        encode_utf8(text.take(n)).len() <= 64,
    ensures
        encode_utf8(text.take(n)).len() <= cut,
{
    beginnings_end_at_boundaries(text, n);
}

/// A letter in lower case.
pub open spec fn lower(byte: u8) -> u8 {
    if 65 <= byte <= 90 {
        (byte + 32) as u8
    } else {
        byte
    }
}

/// Whether a name ends in a suffix, whatever its case, with something before it.
pub open spec fn ends_in(name: Seq<u8>, suffix: Seq<u8>) -> bool {
    &&& name.len() > suffix.len()
    &&& forall|i: int|
        0 <= i < suffix.len() ==> lower(name[name.len() - suffix.len() + i]) == #[trigger] suffix[i]
}

fn ends_with(name: &[u8], suffix: &[u8]) -> (r: bool)
    ensures
        r == ends_in(name@, suffix@),
{
    if name.len() <= suffix.len() {
        return false;
    }
    let from: usize = name.len() - suffix.len();
    let mut i: usize = 0;
    while i < suffix.len()
        invariant
            i <= suffix.len(),
            from + suffix.len() == name.len(),
            forall|k: int|
                0 <= k < i ==> lower(name@[name@.len() - suffix@.len() + k]) == #[trigger] suffix@[k],
        decreases suffix.len() - i,
    {
        let byte: u8 = name[from + i];
        let small: u8 = if byte >= 65 && byte <= 90 {
            byte + 32
        } else {
            byte
        };
        if small != suffix[i] {
            assert(lower(name@[name@.len() - suffix@.len() + i]) != suffix@[i as int]);
            return false;
        }
        i = i + 1;
    }
    true
}

/// Whether bytes are the name of a JPEG: one of the two spellings at its end.
pub open spec fn is_jpeg_spec(name: Seq<u8>) -> bool {
    ends_in(name, seq![46u8, 106, 112, 103]) || ends_in(name, seq![46u8, 106, 112, 101, 103])
}

pub fn is_jpeg(name: &str) -> (r: bool)
    ensures
        r == is_jpeg_spec(name.spec_bytes()),
{
    let bytes = name.as_bytes();
    let jpg: [u8; 4] = [46, 106, 112, 103];
    let jpeg: [u8; 5] = [46, 106, 112, 101, 103];
    assert(jpg@ =~= seq![46u8, 106, 112, 103]);
    assert(jpeg@ =~= seq![46u8, 106, 112, 101, 103]);
    ends_with(bytes, &jpg) || ends_with(bytes, &jpeg)
}

/// How many bytes come before the pixels, if a file of this size can be a screen: none, or four
/// that name its width and height.
pub open spec fn header_spec(size: int) -> Option<usize> {
    if size == 259_200 {
        Some(0)
    } else if size == 259_204 {
        Some(4)
    } else {
        None
    }
}

pub fn header_bytes(size: u32) -> (r: Option<usize>)
    ensures
        r == header_spec(size as int),
{
    if size as usize == SCREEN_BYTES {
        Some(0)
    } else if size as usize == SCREEN_BYTES + 4 {
        Some(4)
    } else {
        None
    }
}

/// Which files a folder is searched for.
#[derive(Clone, Copy, Debug, PartialEq, Eq, Structural)]
pub enum Wanted {
    Jpeg,
    /// A whole screen of pixels.
    Screen,
}

/// A file that was kept.
#[derive(Debug)]
pub struct Kept {
    pub name: String,
    pub size: u32,
}

/// The files kept of a folder, in the order it lists them.
#[derive(Debug)]
pub struct Collection {
    pub wanted: Wanted,
    /// How many are kept.
    pub most: usize,
    /// The longest name kept, in bytes.
    pub longest: usize,
    pub kept: Vec<Kept>,
}

impl Collection {
    /// Whether an entry is kept: a file of the kind that is wanted, with a name short enough.
    pub open spec fn keeps(&self, directory: bool, name: &str, size: u32) -> bool {
        &&& !directory
        &&& match self.wanted {
            Wanted::Jpeg => is_jpeg_spec(name.spec_bytes()),
            Wanted::Screen => header_spec(size as int) is Some,
        }
        &&& name.spec_bytes().len() <= self.longest
    }

    /// JPEGs, up to 32 of them.
    pub fn jpegs() -> (r: Self)
        ensures
            r.wanted == Wanted::Jpeg,
            r.most == 32,
            r.longest == 64,
            r.kept@.len() == 0,
    {
        Collection { wanted: Wanted::Jpeg, most: 32, longest: NAME, kept: Vec::new() }
    }

    /// Screens to look at, up to 8 of them.
    pub fn screens() -> (r: Self)
        ensures
            r.wanted == Wanted::Screen,
            r.most == 8,
            r.longest == 64,
            r.kept@.len() == 0,
    {
        Collection { wanted: Wanted::Screen, most: 8, longest: NAME, kept: Vec::new() }
    }

    /// Backgrounds, up to 12 of them, whatever their names.
    pub fn background_names() -> (r: Self)
        ensures
            r.wanted == Wanted::Screen,
            r.most == 12,
            r.longest == usize::MAX,
            r.kept@.len() == 0,
    {
        Collection { wanted: Wanted::Screen, most: 12, longest: usize::MAX, kept: Vec::new() }
    }

    /// Takes an entry of the folder; says whether the search is over.
    pub fn collect(&mut self, directory: bool, name: &str, size: u32) -> (full: bool)
        requires
            old(self).kept.len() < old(self).most,
        ensures
            final(self).wanted == old(self).wanted,
            final(self).most == old(self).most,
            final(self).longest == old(self).longest,
            old(self).keeps(directory, name, size) ==> {
                &&& final(self).kept@.len() == old(self).kept@.len() + 1
                &&& final(self).kept@.drop_last() == old(self).kept@
                &&& final(self).kept@.last().name@ == name@
                &&& final(self).kept@.last().size == size
            },
            !old(self).keeps(directory, name, size) ==> final(self).kept@ == old(self).kept@,
            full == (final(self).kept@.len() == final(self).most),
            final(self).kept.len() <= final(self).most,
    {
        if directory {
            return false;
        }
        let fits = match self.wanted {
            Wanted::Jpeg => is_jpeg(name),
            Wanted::Screen => header_bytes(size).is_some(),
        };
        if !fits || name.as_bytes().len() > self.longest {
            return false;
        }
        let ghost before = self.kept@;
        self.kept.push(Kept { name: name.to_owned(), size });
        assert(self.kept@.drop_last() =~= before);
        self.kept.len() == self.most
    }
}

/// Where a picture comes from.
#[derive(Clone, Copy, Debug, PartialEq, Eq, Structural)]
pub enum Pick {
    Builtin(usize),
    Card(usize),
    Nothing,
}

/// The picture at an index: the compiled-in ones first, the card's after them, if it is there.
pub fn pick(builtin: usize, found: usize, card: bool, index: usize) -> (r: Pick)
    ensures
        (r matches Pick::Builtin(n) ==> n == index && n < builtin),
        (r matches Pick::Card(n) ==> card && n + builtin == index && n < found),
        r == Pick::Nothing ==> index >= builtin && (!card || index >= builtin + found),
        r == (if index < builtin {
            Pick::Builtin(index)
        } else if card && index - builtin < found {
            Pick::Card((index - builtin) as usize)
        } else {
            Pick::Nothing
        }),
{
    if index < builtin {
        Pick::Builtin(index)
    } else if card && index - builtin < found {
        Pick::Card(index - builtin)
    } else {
        Pick::Nothing
    }
}

/// So many steps on from `at`, round a ring of `total`.
pub fn around(at: usize, detents: i32, total: usize) -> (r: usize)
    requires
        at < total,
        total <= i32::MAX,
        at + detents <= i32::MAX,
    ensures
        r == (at + detents) % total as int,
        r < total,
{
    let sum: i64 = at as i64 + detents as i64;
    let ring: i64 = total as i64;
    if sum >= 0 {
        (sum % ring) as usize
    } else {
        let back: i64 = (-sum) % ring;
        proof {
            let q = (-sum) as int / ring as int;
            vstd::arithmetic::div_mod::lemma_fundamental_div_mod((-sum) as int, ring as int);
            if back == 0 {
                assert(sum == ring * (-q) + 0) by (nonlinear_arith)
                    requires
                        -sum == ring * q + 0,
                ;
                vstd::arithmetic::div_mod::lemma_fundamental_div_mod_converse(
                    sum as int,
                    ring as int,
                    -q,
                    0,
                );
            } else {
                assert(sum == ring * (-q - 1) + (ring - back)) by (nonlinear_arith)
                    requires
                        -sum == ring * q + back,
                ;
                vstd::arithmetic::div_mod::lemma_fundamental_div_mod_converse(
                    sum as int,
                    ring as int,
                    -q - 1,
                    ring - back,
                );
            }
        }
        if back == 0 {
            0
        } else {
            (ring - back) as usize
        }
    }
}

/// A path cut to a buffer of `room` bytes, as bytes.
pub open spec fn joined(folder: Seq<u8>, name: Seq<u8>, room: int) -> Seq<u8> {
    let whole = folder + seq![47u8] + name;
    if whole.len() <= room {
        whole
    } else {
        whole.take(room)
    }
}

fn push_bytes(out: &mut Vec<u8>, part: &[u8], room: usize)
    requires
        old(out).len() <= room,
    ensures
        final(out)@ == (if old(out)@.len() + part@.len() <= room {
            old(out)@ + part@
        } else {
            (old(out)@ + part@).take(room as int)
        }),
        final(out).len() <= room,
{
    let ghost before = out@;
    let mut i: usize = 0;
    while i < part.len() && out.len() < room
        invariant
            i <= part.len(),
            out.len() <= room,
            out@ == before + part@.take(i as int),
        decreases part.len() - i,
    {
        out.push(part[i]);
        i = i + 1;
        assert(out@ =~= before + part@.take(i as int));
    }
    proof {
        if i == part.len() {
            assert(part@.take(i as int) =~= part@);
        } else {
            assert(before + part@.take(i as int) =~= (before + part@).take(room as int));
        }
    }
}

/// A folder and a name with a slash between them, in at most `room` bytes.
pub fn join(folder: &str, name: &str, room: usize) -> (r: String)
    ensures
        r@ == utf8_or(joined(folder.spec_bytes(), name.spec_bytes(), room as int), "?"@),
{
    let mut out: Vec<u8> = Vec::new();
    let slash: [u8; 1] = [47];
    push_bytes(&mut out, folder.as_bytes(), room);
    let ghost first = out@;
    push_bytes(&mut out, &slash, room);
    let ghost second = out@;
    push_bytes(&mut out, name.as_bytes(), room);
    proof {
        let f = folder.spec_bytes();
        let n = name.spec_bytes();
        assert(slash@ =~= seq![47u8]);
        assert(out@ =~= joined(f, n, room as int));
    }
    crate::text::text_or(out.as_slice(), "?")
}

/// A read of a whole picture, piece by piece.
#[derive(Clone, Copy, Debug, PartialEq, Eq, Structural)]
pub struct Reading {
    pub done: usize,
    pub total: usize,
}

/// What comes after a piece.
#[derive(Clone, Copy, Debug, PartialEq, Eq, Structural)]
pub enum ReadOn {
    /// Read on from here.
    From(usize),
    /// All of it is there.
    Whole,
    /// The file ended early. Half a picture is worse than none.
    Short,
}

impl Reading {
    pub fn new(total: usize) -> (r: Self)
        ensures
            r == (Reading { done: 0, total }),
    {
        Reading { done: 0, total }
    }

    /// Takes how many bytes a read brought; none means that the file ended.
    pub fn took(&mut self, bytes: usize) -> (r: ReadOn)
        requires
            old(self).done < old(self).total,
            bytes <= old(self).total - old(self).done,
        ensures
            r == ReadOn::Short <==> bytes == 0,
            r == ReadOn::Whole ==> final(self).done == final(self).total,
            (r matches ReadOn::From(at) ==> at == final(self).done && at < final(self).total),
            *final(self) == (Reading { done: (old(self).done + bytes) as usize, ..*old(self) }),
            r == (if bytes == 0 {
                ReadOn::Short
            } else if old(self).done + bytes == old(self).total {
                ReadOn::Whole
            } else {
                ReadOn::From((old(self).done + bytes) as usize)
            }),
    {
        self.done = self.done + bytes;
        if bytes == 0 {
            ReadOn::Short
        } else if self.done == self.total {
            ReadOn::Whole
        } else {
            ReadOn::From(self.done)
        }
    }
}

/// What a decoder said when it was asked without a buffer.
#[derive(Clone, Copy, Debug, PartialEq, Eq, Structural)]
pub enum Asked {
    NoRoom { needed: usize },
    BadHeaders,
    Decoded,
}

/// How much room decoding takes: the decoder is asked once without any, and only a refusal that
/// names the room is an answer.
pub fn room_needed(asked: Asked) -> (r: Option<usize>)
    ensures
        r == (match asked {
            Asked::NoRoom { needed } => Some(needed),
            _ => None,
        }),
{
    match asked {
        Asked::NoRoom { needed } => Some(needed),
        _ => None,
    }
}

/// A picture that was decoded.
#[derive(Clone, Copy, Debug)]
pub struct Decoded {
    pub width: usize,
    pub height: usize,
    /// Bytes of its file.
    pub bytes: usize,
    /// How long decoding took, in microseconds.
    pub micros: u64,
    pub name: Name,
}

/// What is written under a picture: two small lines, and a large one that can be read from where
/// the knob is.
#[derive(Debug)]
pub struct Caption {
    pub name: String,
    pub detail: String,
    pub headline: String,
}

/// The first row of a caption's dimmed band, and the row after its last.
pub const CAPTION_TOP: usize = 290;

pub const CAPTION_FOOT: usize = 336;

/// How a decoded picture was fitted: its width on the screen and how long that took, or `None`
/// where its buffer is too short for its size.
pub open spec fn caption_spec(decoded: Option<&Decoded>, fitted: Option<(usize, u64)>, scaler: Seq<
    char,
>) -> (Seq<char>, Seq<char>, Seq<char>) {
    match decoded {
        None => ("no picture"@, ""@, scaler),
        Some(d) => match fitted {
            None => (d.name.says(), "short buffer"@, scaler),
            Some((width, micros)) => (
                d.name.says(),
                decimal((d.bytes / 1024) as nat) + " KiB  decode "@ + decimal(
                    (d.micros / 1000) as nat,
                ) + " ms  fit "@ + decimal((micros / 1000) as nat) + " ms"@,
                decimal(d.width as nat) + ">"@ + decimal(width as nat) + " "@ + scaler,
            ),
        },
    }
}

/// What is written under a picture. The size it came in stands next to the scaler: at the size
/// of the screen all scalers are the same.
pub fn show(decoded: Option<&Decoded>, fitted: Option<(usize, u64)>, scaler: &str) -> (r: Caption)
    ensures
        (r.name@, r.detail@, r.headline@) == caption_spec(decoded, fitted, scaler@),
{
    match decoded {
        None => Caption {
            name: "no picture".to_owned(),
            detail: "".to_owned(),
            headline: scaler.to_owned(),
        },
        Some(d) => match fitted {
            None => Caption {
                name: d.name.as_str().to_owned(),
                detail: "short buffer".to_owned(),
                headline: scaler.to_owned(),
            },
            Some((width, micros)) => {
                let mut detail = String::new();
                push_decimal(&mut detail, (d.bytes / 1024) as u64);
                detail.append(" KiB  decode ");
                push_decimal(&mut detail, d.micros / 1000);
                detail.append(" ms  fit ");
                push_decimal(&mut detail, micros / 1000);
                detail.append(" ms");
                let mut headline = String::new();
                push_decimal(&mut headline, d.width as u64);
                headline.append(">");
                push_decimal(&mut headline, width as u64);
                headline.append(" ");
                headline.append(scaler);
                Caption { name: d.name.as_str().to_owned(), detail, headline }
            },
        },
    }
}

/// How a raw picture's bytes stand.
pub fn byte_order(swapped: bool) -> (r: &'static str)
    ensures
        r@ == (if swapped {
            "swapped"@
        } else {
            "as stored"@
        }),
{
    if swapped {
        "swapped"
    } else {
        "as stored"
    }
}

/// A letter of either case.
pub open spec fn either_case(byte: u8, letter: u8) -> bool {
    byte == letter || byte + 32 == letter
}

/// A picture is known by what its name ends in, in letters of either case: a point and `jpg`, or a
/// point and `jpeg`, with something in front.
pub proof fn a_picture_is_known_by_its_name(name: Seq<u8>)
    ensures
        is_jpeg_spec(name) <==> {
            let n = name.len() as int;
            ||| n > 4 && name[n - 4] == 46 && either_case(name[n - 3], 106) && either_case(
                name[n - 2],
                112,
            ) && either_case(name[n - 1], 103)
            ||| n > 5 && name[n - 5] == 46 && either_case(name[n - 4], 106) && either_case(
                name[n - 3],
                112,
            ) && either_case(name[n - 2], 101) && either_case(name[n - 1], 103)
        },
{
    let short = seq![46u8, 106, 112, 103];
    let long = seq![46u8, 106, 112, 101, 103];
    let n = name.len() as int;
    assert(short[0] == 46 && short[1] == 106 && short[2] == 112 && short[3] == 103);
    assert(long[0] == 46 && long[1] == 106 && long[2] == 112 && long[3] == 101 && long[4] == 103);
    if ends_in(name, short) {
        assert(lower(name[n - 4 + 0]) == short[0]);
        assert(lower(name[n - 4 + 1]) == short[1]);
        assert(lower(name[n - 4 + 2]) == short[2]);
        assert(lower(name[n - 4 + 3]) == short[3]);
    }
    if ends_in(name, long) {
        assert(lower(name[n - 5 + 0]) == long[0]);
        assert(lower(name[n - 5 + 1]) == long[1]);
        assert(lower(name[n - 5 + 2]) == long[2]);
        assert(lower(name[n - 5 + 3]) == long[3]);
        assert(lower(name[n - 5 + 4]) == long[4]);
    }
}

/// A file can be a screen if it is a screen of pixels and nothing else, or has room for a width and a
/// height in front.
pub proof fn a_screen_is_known_by_its_size(size: int)
    ensures
        (header_spec(size) matches Some(header) ==> header + SCREEN_BYTES == size && (header == 0
            || header == 4)),
        header_spec(SCREEN_BYTES as int) == Some(0usize),
        header_spec(SCREEN_BYTES + 4) == Some(4usize),
        SCREEN_BYTES == 360 * 360 * 2,
{
}

/// A search keeps no folder and no name that is too long, JPEGs by their names whatever their size,
/// and screens by their size whatever their names.
pub proof fn a_search_keeps_what_it_is_for(files: Collection, name: &str, size: u32)
    ensures
        !files.keeps(true, name, size),
        name.spec_bytes().len() > files.longest ==> !files.keeps(false, name, size),
        name.spec_bytes().len() <= files.longest && files.wanted == Wanted::Jpeg ==> (files.keeps(
            false,
            name,
            size,
        ) <==> is_jpeg_spec(name.spec_bytes())),
        name.spec_bytes().len() <= files.longest && files.wanted == Wanted::Screen ==> (files.keeps(
            false,
            name,
            size,
        ) <==> size == 259_200 || size == 259_204),
{
}

/// A path is its folder, a slash and its name where there is room for them, and as much of that from
/// the front as there is room for where there is not.
pub proof fn a_path_is_cut_from_behind(folder: Seq<u8>, name: Seq<u8>, room: int)
    requires
        0 <= room,
    ensures
        joined(folder, name, room).len() <= room,
        joined(folder, name, room).is_prefix_of(folder + seq![47u8] + name),
        folder.len() + 1 + name.len() <= room ==> joined(folder, name, room) == folder + seq![47u8]
            + name,
        folder.len() + 1 + name.len() > room ==> joined(folder, name, room).len() == room,
{
}

/// What is written under a picture: the file's name and size, how long decoding and fitting took in
/// milliseconds, and the widths before and after beside the scaler. Without a picture, or with a
/// buffer too short for it, it says so, and still names the scaler.
pub proof fn a_caption_tells_the_picture(d: &Decoded, width: usize, micros: u64, scaler: Seq<char>)
    ensures
        caption_spec(None, None, scaler) == ("no picture"@, ""@, scaler),
        caption_spec(Some(d), None, scaler) == (d.name.says(), "short buffer"@, scaler),
        caption_spec(Some(d), Some((width, micros)), scaler).0 == d.name.says(),
        caption_spec(Some(d), Some((width, micros)), scaler).1 == decimal((d.bytes / 1024) as nat)
            + " KiB  decode "@ + decimal((d.micros / 1000) as nat) + " ms  fit "@ + decimal(
            (micros / 1000) as nat,
        ) + " ms"@,
        caption_spec(Some(d), Some((width, micros)), scaler).2 == decimal(d.width as nat) + ">"@
            + decimal(width as nat) + " "@ + scaler,
{
}

/// Only the capitals from A to Z change, each to its small letter; every other byte stays.
pub proof fn only_capitals_are_lowered(byte: u8)
    ensures
        'A' <= byte as char <= 'Z' ==> lower(byte) == byte + 32,
        !('A' <= byte as char <= 'Z') ==> lower(byte) == byte,
{
}

} // verus!
