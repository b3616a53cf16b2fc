//! The header of a PLY file.
use crate::text::{contains, holds, same, stands_at, starts_with};
use vstd::prelude::*;

verus! {

/// How the numbers of the body are encoded.
#[derive(Debug, Clone, Copy, PartialEq, Eq, Structural)]
pub enum Encoding {
    Ascii,
    BinaryBigEndian,
    BinaryLittleEndian,
}

/// An element of the body.
#[derive(Debug, Clone, PartialEq, Eq)]
pub struct PlyElement {
    pub name: String,
    pub count: usize,
    pub properties: Vec<String>,
}

/// The header of a PLY file.
#[derive(Debug, Clone, PartialEq, Eq)]
pub struct PlyHeader {
    pub encoding: Encoding,
    pub comments: Vec<String>,
    pub elements: Vec<PlyElement>,
}

/// The characters of each text.
pub open spec fn texts(s: Seq<String>) -> Seq<Seq<char>> {
    s.map_values(|t: String| t@)
}

/// What a [`PlyElement`] holds.
#[verifier::ext_equal]
pub struct ElementData {
    pub name: Seq<char>,
    pub count: usize,
    pub properties: Seq<Seq<char>>,
}

impl View for PlyElement {
    type V = ElementData;

    open spec fn view(&self) -> ElementData {
        ElementData {
            name: self.name@,
            count: self.count,
            properties: texts(self.properties@),
        }
    }
}

/// What a [`PlyHeader`] holds.
#[verifier::ext_equal]
pub struct HeaderData {
    pub encoding: Encoding,
    pub comments: Seq<Seq<char>>,
    pub elements: Seq<ElementData>,
}

impl View for PlyHeader {
    type V = HeaderData;

    open spec fn view(&self) -> HeaderData {
        HeaderData {
            encoding: self.encoding,
            comments: texts(self.comments@),
            elements: self.elements@.map_values(|e: PlyElement| e@),
        }
    }
}

/// The first element with this name.
pub open spec fn element_named(elements: Seq<ElementData>, name: Seq<char>) -> Option<ElementData>
    decreases elements.len(),
{
    if elements.len() == 0 {
        None
    } else {
        match element_named(elements.drop_last(), name) {
            Some(e) => Some(e),
            None => if elements.last().name == name {
                Some(elements.last())
            } else {
                None
            },
        }
    }
}

/// The first text that holds `word`.
pub open spec fn first_holding(all: Seq<Seq<char>>, word: Seq<char>) -> Option<Seq<char>>
    decreases all.len(),
{
    if all.len() == 0 {
        None
    } else {
        match first_holding(all.drop_last(), word) {
            Some(t) => Some(t),
            None => if holds(all.last(), word) {
                Some(all.last())
            } else {
                None
            },
        }
    }
}

/// How many of the texts start with `prefix`.
pub open spec fn count_starting(all: Seq<Seq<char>>, prefix: Seq<char>) -> nat
    decreases all.len(),
{
    if all.len() == 0 {
        0
    } else {
        count_starting(all.drop_last(), prefix) + (if stands_at(all.last(), prefix, 0) {
            1nat
        } else {
            0
        })
    }
}

impl HeaderData {
    /// There is an element with this name.
    pub open spec fn has(&self, name: Seq<char>) -> bool {
        element_named(self.elements, name) is Some
    }

    /// The element `vertex`.
    pub open spec fn vertex(&self) -> ElementData
        recommends
            self.has("vertex"@),
    {
        element_named(self.elements, "vertex"@)->0
    }
}

/// The first text that holds `word`.
pub(crate) fn find_holding<'a>(all: &'a Vec<String>, word: &str) -> (found: Option<&'a String>)
    ensures
        match found {
            Some(t) => first_holding(texts(all@), word@) == Some(t@),
            None => first_holding(texts(all@), word@) is None,
        },
{
    let mut i: usize = 0;
    while i < all.len()
        invariant
            i <= all@.len(),
            first_holding(texts(all@).take(i as int), word@) is None,
        decreases all@.len() - i,
    {
        proof {
            assert(texts(all@).take(i + 1).drop_last() =~= texts(all@).take(i as int));
            assert(texts(all@).take(i + 1).last() == all@[i as int]@);
        }
        if contains(all[i].as_str(), word) {
            proof {
                first_holding_of_prefix(texts(all@), word@, i + 1);
            }
            return Some(&all[i]);
        }
        i += 1;
    }
    assert(texts(all@).take(i as int) =~= texts(all@));
    None
}

/// A text found in a prefix is the one found in the whole.
proof fn first_holding_of_prefix(all: Seq<Seq<char>>, word: Seq<char>, n: int)
    requires
        0 <= n <= all.len(),
        first_holding(all.take(n), word) is Some,
    ensures
        first_holding(all, word) == first_holding(all.take(n), word),
    decreases all.len() - n,
{
    if n == all.len() {
        assert(all.take(n) =~= all);
    } else {
        assert(all.take(n + 1).drop_last() =~= all.take(n));
        first_holding_of_prefix(all, word, n + 1);
    }
}

/// An element found in a prefix is the one found in the whole.
proof fn element_of_prefix(all: Seq<ElementData>, name: Seq<char>, n: int)
    requires
        0 <= n <= all.len(),
        element_named(all.take(n), name) is Some,
    ensures
        element_named(all, name) == element_named(all.take(n), name),
    decreases all.len() - n,
{
    if n == all.len() {
        assert(all.take(n) =~= all);
    } else {
        assert(all.take(n + 1).drop_last() =~= all.take(n));
        element_of_prefix(all, name, n + 1);
    }
}

/// How many of the texts start with `prefix`.
pub(crate) fn count_with_prefix(all: &Vec<String>, prefix: &str) -> (count: usize)
    ensures
        count == count_starting(texts(all@), prefix@),
{
    let mut count: usize = 0;
    let mut i: usize = 0;
    while i < all.len()
        invariant
            i <= all@.len(),
            count <= i,
            count == count_starting(texts(all@).take(i as int), prefix@),
        decreases all@.len() - i,
    {
        proof {
            assert(texts(all@).take(i + 1).drop_last() =~= texts(all@).take(i as int));
            assert(texts(all@).take(i + 1).last() == all@[i as int]@);
        }
        if starts_with(all[i].as_str(), prefix) {
            count += 1;
        }
        i += 1;
    }
    assert(texts(all@).take(i as int) =~= texts(all@));
    count
}

impl PlyHeader {
    /// The first element with this name.
    pub fn element(&self, name: &str) -> (found: Option<&PlyElement>)
        ensures
            match found {
                Some(e) => element_named(self@.elements, name@) == Some(e@),
                None => element_named(self@.elements, name@) is None,
            },
    {
        let ghost all = self@.elements;
        let mut i: usize = 0;
        while i < self.elements.len()
            invariant
                i <= self.elements@.len(),
                all == self@.elements,
                all.len() == self.elements@.len(),
                element_named(all.take(i as int), name@) is None,
            decreases self.elements@.len() - i,
        {
            proof {
                assert(all.take(i + 1).drop_last() =~= all.take(i as int));
                assert(all.take(i + 1).last() == self.elements@[i as int]@);
            }
            if same(self.elements[i].name.as_str(), name) {
                proof {
                    element_of_prefix(all, name@, i + 1);
                }
                return Some(&self.elements[i]);
            }
            i += 1;
        }
        assert(all.take(i as int) =~= all);
        None
    }
}

/// The value of decimal digits.
pub open spec fn decimal(digits: Seq<u8>) -> int
    decreases digits.len(),
{
    if digits.len() == 0 {
        0
    } else {
        10 * decimal(digits.drop_last()) + (digits.last() - 48)
    }
}

/// `b` is a decimal digit.
pub open spec fn is_digit(b: u8) -> bool {
    48 <= b <= 57
}

/// A line starts at `at`.
pub open spec fn line_starts(s: Seq<u8>, at: int) -> bool {
    0 <= at <= s.len() && (at == 0 || s[at - 1] == 10)
}

/// `end_header`.
pub open spec fn end_word() -> Seq<u8> {
    seq![101u8, 110, 100, 95, 104, 101, 97, 100, 101, 114]
}

/// `element`.
pub open spec fn element_word() -> Seq<u8> {
    seq![101u8, 108, 101, 109, 101, 110, 116]
}

/// `format`.
pub open spec fn format_word() -> Seq<u8> {
    seq![102u8, 111, 114, 109, 97, 116]
}

/// No line up to `at` starts with `end_header`.
pub open spec fn before_end(s: Seq<u8>, at: int) -> bool {
    forall|e: int| 0 <= e <= at && #[trigger] line_starts(s, e) ==> !stands_at(s, end_word(), e)
}

/// The bytes from `i` to `j` are digits after a blank or a point, in a line
/// that starts at `line` with `element` or `format`.
pub open spec fn number_in_line(s: Seq<u8>, line: int, i: int, j: int) -> bool {
    &&& line_starts(s, line)
    &&& line < i < j <= s.len()
    &&& stands_at(s, element_word(), line) || stands_at(s, format_word(), line)
    &&& s[i - 1] == 32 || s[i - 1] == 9 || s[i - 1] == 46
    &&& forall|k: int| line <= k < j ==> #[trigger] s[k] != 10
    &&& forall|k: int| i <= k < j ==> is_digit(#[trigger] s[k])
}

/// The counts and version numbers of a header fit 64 bits.
pub open spec fn header_numbers_fit(s: Seq<u8>) -> bool {
    forall|line: int, i: int, j: int|
        before_end(s, line) && #[trigger] number_in_line(s, line, i, j) ==> decimal(
            s.subrange(i, j),
        ) <= 0xffff_ffff_ffff_ffff
}

/// Whether `word` stands in `s` at `at`.
fn word_at(s: &[u8], word: &[u8], at: usize) -> (r: bool)
    requires
        at <= s@.len(),
    ensures
        r == stands_at(s@, word@, at as int),
{
    let len: usize = s.len();
    if word.len() > len - at {
        return false;
    }
    let mut k: usize = 0;
    while k < word.len()
        invariant
            k <= word@.len(),
            at + word@.len() <= s@.len() == len,
            forall|j: int| 0 <= j < k ==> s@[at + j] == #[trigger] word@[j],
        decreases word@.len() - k,
    {
        if s[at + k] != word[k] {
            assert(s@.subrange(at as int, at + word@.len())[k as int] != word@[k as int]);
            return false;
        }
        k += 1;
    }
    assert(s@.subrange(at as int, at + word@.len()) =~= word@);
    true
}

/// Whether the counts and version numbers of a header fit 64 bits.
pub fn numbers_fit(s: &[u8]) -> (r: bool)
    ensures
        r == header_numbers_fit(s@),
{
    let end: [u8; 10] = [101, 110, 100, 95, 104, 101, 97, 100, 101, 114];
    let element: [u8; 7] = [101, 108, 101, 109, 101, 110, 116];
    let format: [u8; 6] = [102, 111, 114, 109, 97, 116];
    assert(end@ =~= end_word());
    assert(element@ =~= element_word());
    assert(format@ =~= format_word());
    let len: usize = s.len();
    let mut line: usize = 0;
    // Each round handles one line.
    loop
        invariant
            len == s@.len(),
            end@ == end_word(),
            element@ == element_word(),
            format@ == format_word(),
            line_starts(s@, line as int),
            forall|e: int|
                0 <= e < line && #[trigger] line_starts(s@, e) ==> !stands_at(s@, end_word(), e),
            forall|l: int, i: int, j: int|
                l < line && #[trigger] number_in_line(s@, l, i, j) ==> decimal(s@.subrange(i, j))
                    <= 0xffff_ffff_ffff_ffff,
        decreases len - line,
    {
        if word_at(s, end.as_slice(), line) {
            assert forall|l: int, i: int, j: int|
                before_end(s@, l) && #[trigger] number_in_line(s@, l, i, j) implies decimal(
                s@.subrange(i, j),
            ) <= 0xffff_ffff_ffff_ffff by {
                assert(line_starts(s@, line as int));
                assert(l < line);
            }
            return true;
        }
        let counts: bool = word_at(s, element.as_slice(), line) || word_at(
            s,
            format.as_slice(),
            line,
        );
        let mut p: usize = line;
        let mut in_run: bool = false;
        let mut start: usize = line;
        let mut value: u64 = 0;
        while p < len && s[p] != 10
            invariant
                len == s@.len(),
                line <= p <= len,
                line_starts(s@, line as int),
                counts == (stands_at(s@, element_word(), line as int) || stands_at(
                    s@,
                    format_word(),
                    line as int,
                )),
                before_end(s@, line as int),
                forall|k: int| line <= k < p ==> #[trigger] s@[k] != 10,
                line <= start <= p,
                in_run ==> number_in_line(s@, line as int, start as int, p as int) && value
                    == decimal(s@.subrange(start as int, p as int)),
                !in_run ==> forall|i: int| !#[trigger] number_in_line(
                    s@,
                    line as int,
                    i,
                    p as int,
                ),
                forall|i: int, j: int|
                    j <= p && #[trigger] number_in_line(s@, line as int, i, j) ==> decimal(
                        s@.subrange(i, j),
                    ) <= 0xffff_ffff_ffff_ffff,
            decreases len - p,
        {
            let b: u8 = s[p];
            if counts && 48 <= b && b <= 57 {
                let digit: u64 = (b - 48) as u64;
                if in_run {
                    proof {
                        assert(s@.subrange(start as int, p + 1).drop_last() =~= s@.subrange(
                            start as int,
                            p as int,
                        ));
                        assert(number_in_line(s@, line as int, start as int, p + 1));
                    }
                    if value > (0xffff_ffff_ffff_ffff - digit) / 10 {
                        assert(decimal(s@.subrange(start as int, p + 1)) > 0xffff_ffff_ffff_ffff);
                        assert(!header_numbers_fit(s@));
                        return false;
                    }
                    value = value * 10 + digit;
                } else if p > line && (s[p - 1] == 32 || s[p - 1] == 9 || s[p - 1] == 46) {
                    in_run = true;
                    start = p;
                    value = digit;
                    proof {
                        assert(s@.subrange(p as int, p + 1).drop_last() =~= Seq::empty());
                        assert(decimal(Seq::<u8>::empty()) == 0);
                        assert(number_in_line(s@, line as int, start as int, p + 1));
                    }
                } else {
                    assert forall|i: int| !#[trigger] number_in_line(
                        s@,
                        line as int,
                        i,
                        p + 1,
                    ) by {
                        if number_in_line(s@, line as int, i, p + 1) && i < p {
                            assert(number_in_line(s@, line as int, i, p as int));
                        }
                    }
                }
                assert forall|i: int|
                    in_run && #[trigger] number_in_line(s@, line as int, i, p + 1) implies i
                    == start by {
                    if i < start {
                        assert(is_digit(s@[start - 1]));
                    }
                    if i > start {
                        assert(is_digit(s@[i - 1]));
                    }
                }
            } else {
                in_run = false;
                assert forall|i: int| !#[trigger] number_in_line(s@, line as int, i, p + 1) by {
                    if number_in_line(s@, line as int, i, p + 1) {
                        assert(is_digit(s@[p as int]));
                    }
                }
            }
            p += 1;
        }
        assert forall|i: int, j: int| #[trigger]
            number_in_line(s@, line as int, i, j) implies decimal(s@.subrange(i, j))
            <= 0xffff_ffff_ffff_ffff by {
            if j > p {
                assert(s@[p as int] == 10);
            }
        }
        if p == len {
            assert forall|l: int, i: int, j: int|
                before_end(s@, l) && #[trigger] number_in_line(s@, l, i, j) implies decimal(
                s@.subrange(i, j),
            ) <= 0xffff_ffff_ffff_ffff by {
                assert(l <= line) by {
                    if l > line {
                        assert(s@[l - 1] == 10);
                    }
                }
            }
            return true;
        }
        assert forall|l: int, i: int, j: int|
            l < p + 1 && #[trigger] number_in_line(s@, l, i, j) implies decimal(s@.subrange(i, j))
            <= 0xffff_ffff_ffff_ffff by {
            if l > line {
                assert(s@[l - 1] == 10);
            }
        }
        assert forall|e: int| 0 <= e < p + 1 && #[trigger] line_starts(s@, e) implies !stands_at(
            s@,
            end_word(),
            e,
        ) by {
            if e > line {
                assert(s@[e - 1] == 10);
            }
        }
        line = p + 1;
    }
}

/// The header that `ply_rs` reads from the start of these bytes, and the bytes
/// that it leaves; nothing where it reports an error.
pub uninterp spec fn ply_header(bytes: Seq<u8>) -> Option<(HeaderData, Seq<u8>)>;

/// `ply_rs`'s `Parser::read_header`, on bytes in memory: the header up to and
/// with the line `end_header`, its encoding, its comments and its elements
/// with their properties in the order of the file, and the bytes after it.
/// It reads from the front, so what is left is the end of the bytes. A count
/// or version number that 64 bits cannot hold makes it panic.
#[verifier::external_body]
pub(crate) fn read_header(bytes: &[u8]) -> (r: Option<(PlyHeader, Vec<u8>)>)
    requires
        header_numbers_fit(bytes@),
    ensures
        match r {
            Some((header, rest)) => {
                &&& ply_header(bytes@) == Some((header@, rest@))
                &&& rest@.len() <= bytes@.len()
                &&& rest@ == bytes@.skip(bytes@.len() - rest@.len())
            },
            None => ply_header(bytes@) is None,
        },
{
    let mut rest: &[u8] = bytes;
    let parser = ply_rs::parser::Parser::<ply_rs::ply::DefaultElement>::new();
    let header = parser.read_header(&mut rest).ok()?;
    let encoding = match header.encoding {
        ply_rs::ply::Encoding::Ascii => Encoding::Ascii,
        ply_rs::ply::Encoding::BinaryBigEndian => Encoding::BinaryBigEndian,
        ply_rs::ply::Encoding::BinaryLittleEndian => Encoding::BinaryLittleEndian,
    };
    let elements = header.elements.into_iter().map(|(name, e)| PlyElement {
        name,
        count: e.count,
        properties: e.properties.into_iter().map(|(key, _)| key).collect(),
    }).collect();
    Some((PlyHeader { encoding, comments: header.comments, elements }, rest.to_vec()))
}

} // verus!
