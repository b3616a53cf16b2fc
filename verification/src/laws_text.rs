//! What holds of texts and of a file's header: how a text falls into its parts, and
//! what a reader takes from the header.
use vstd::prelude::*;

use crate::header::{
    count_starting, decimal, element_named, first_holding, header_numbers_fit, is_digit,
    number_in_line, texts, ElementData, HeaderData,
};
use crate::ply::{
    color_properties, degree_is_unique, is_degree, mip_setting, num_coefs, opens, reader_of,
    setting, tells_of_camera, PlyError, PlyReader,
};
use crate::text::{after_last, holds, pieces, stands_at};

verus! {

/// A part of a text stands where the parts before it end.
pub proof fn part_stands_between<T>(a: Seq<T>, needle: Seq<T>, b: Seq<T>)
    ensures
        stands_at(a + needle + b, needle, a.len() as int),
        holds(a + needle + b, needle),
{
    let s = a + needle + b;
    assert(s.subrange(a.len() as int, (a.len() + needle.len()) as int) =~= needle);
}

/// Where a text holds another, it is made of what comes before, the other and what
/// comes after.
pub proof fn holding_text_falls_apart<T>(s: Seq<T>, needle: Seq<T>, at: int)
    requires
        stands_at(s, needle, at),
    ensures
        0 <= at <= s.len(),
        s == s.take(at) + needle + s.skip(at + needle.len()),
{
    let whole = s.take(at) + needle + s.skip(at + needle.len());
    assert forall|i: int| 0 <= i < s.len() implies s[i] == whole[i] by {
        if at <= i < at + needle.len() {
            assert(s.subrange(at, at + needle.len())[i - at] == needle[i - at]);
        }
    }
    assert(s =~= whole);
}

/// What follows the last `c` is what follows it.
pub proof fn after_last_takes_the_rest(x: Seq<char>, c: char, y: Seq<char>)
    requires
        !y.contains(c),
    ensures
        after_last(y, c) == y,
        after_last(x + seq![c] + y, c) == y,
    decreases y.len(),
{
    let s = x + seq![c] + y;
    if y.len() == 0 {
        assert(s.last() == c);
        assert(after_last(y, c) =~= y);
        assert(after_last(s, c) =~= y);
    } else {
        assert(y.contains(y.last()));
        assert forall|i: int| 0 <= i < y.drop_last().len() implies y.drop_last()[i] != c by {
            assert(y.contains(y[i]));
        }
        after_last_takes_the_rest(x, c, y.drop_last());
        assert(s.drop_last() =~= x + seq![c] + y.drop_last());
        assert(y.drop_last().push(y.last()) =~= y);
    }
}

/// The pieces of a text are what stands between the `c`s.
pub proof fn pieces_lie_between(x: Seq<char>, c: char, y: Seq<char>)
    requires
        !y.contains(c),
    ensures
        pieces(y, c) == seq![y],
        pieces(x + seq![c] + y, c) == pieces(x, c).push(y),
    decreases y.len(),
{
    let s = x + seq![c] + y;
    if y.len() == 0 {
        assert(y =~= Seq::empty());
        assert(s.last() == c && s.drop_last() =~= x);
        assert(pieces(y, c) =~= seq![y]);
    } else {
        assert(y.contains(y.last()));
        assert forall|i: int| 0 <= i < y.drop_last().len() implies y.drop_last()[i] != c by {
            assert(y.contains(y[i]));
        }
        pieces_lie_between(x, c, y.drop_last());
        assert(s.drop_last() =~= x + seq![c] + y.drop_last());
        assert(y.drop_last().push(y.last()) =~= y);
        assert(seq![y.drop_last()].drop_last() =~= Seq::empty());
        assert(pieces(y, c) =~= seq![y]);
        let before = pieces(x, c).push(y.drop_last());
        assert(before.drop_last() =~= pieces(x, c));
        assert(before.last() == y.drop_last());
    }
}

/// The text that is found is the first that holds the word; none is found where none
/// holds it.
pub proof fn first_holding_is_the_first(all: Seq<Seq<char>>, word: Seq<char>, i: int)
    requires
        0 <= i <= all.len(),
        forall|j: int| 0 <= j < i ==> !holds(#[trigger] all[j], word),
        i < all.len() ==> holds(all[i], word),
    ensures
        first_holding(all, word) == if i < all.len() {
            Some(all[i])
        } else {
            None
        },
    decreases all.len(),
{
    if all.len() > 0 {
        let front = all.drop_last();
        if i < front.len() {
            first_holding_is_the_first(front, word, i);
        } else {
            first_holding_is_the_first(front, word, front.len() as int);
        }
    }
}

/// The element that is found is the first of its name; none is found where none has
/// it.
pub proof fn element_named_is_the_first(elements: Seq<ElementData>, name: Seq<char>, i: int)
    requires
        0 <= i <= elements.len(),
        forall|j: int| 0 <= j < i ==> (#[trigger] elements[j]).name != name,
        i < elements.len() ==> elements[i].name == name,
    ensures
        element_named(elements, name) == if i < elements.len() {
            Some(elements[i])
        } else {
            None
        },
    decreases elements.len(),
{
    if elements.len() > 0 {
        let front = elements.drop_last();
        if i < front.len() {
            element_named_is_the_first(front, name, i);
        } else {
            element_named_is_the_first(front, name, front.len() as int);
        }
    }
}

/// Each text that starts with the prefix counts once, and no other counts.
pub proof fn counting_counts_each_once(a: Seq<Seq<char>>, t: Seq<char>, b: Seq<Seq<char>>, prefix: Seq<char>)
    ensures
        count_starting(a + b, prefix) == count_starting(a, prefix) + count_starting(b, prefix),
        count_starting(seq![prefix + t], prefix) == 1,
        !stands_at(t, prefix, 0) ==> count_starting(seq![t], prefix) == 0,
        count_starting(Seq::empty(), prefix) == 0,
    decreases b.len(),
{
    reveal_with_fuel(count_starting, 2);
    if b.len() == 0 {
        assert(a + b =~= a);
    } else {
        counting_counts_each_once(a, t, b.drop_last(), prefix);
        assert((a + b).drop_last() =~= a + b.drop_last());
    }
    assert(seq![t].drop_last() =~= Seq::<Seq<char>>::empty());
    let u = prefix + t;
    assert(seq![u].drop_last() =~= Seq::<Seq<char>>::empty());
    assert(u.subrange(0, prefix.len() as int) =~= prefix);
    assert(stands_at(u, prefix, 0));
}

/// A setting is what stands behind the last equals sign of the first comment that
/// holds its key.
pub proof fn setting_follows_the_equals_sign(
    comments: Seq<Seq<char>>,
    key: Seq<char>,
    i: int,
    before: Seq<char>,
    value: Seq<char>,
)
    requires
        0 <= i < comments.len(),
        forall|j: int| 0 <= j < i ==> !holds(#[trigger] comments[j], key),
        holds(comments[i], key),
        comments[i] == before + seq!['='] + value,
        !value.contains('='),
    ensures
        setting(comments, key) == Some(value),
{
    first_holding_is_the_first(comments, key, i);
    after_last_takes_the_rest(before, '=', value);
}

/// Mip splatting is on or off where the setting says `true` or `false`, open where
/// nothing is said, and an error where anything else is.
pub proof fn mip_setting_is_a_truth_value(comments: Seq<Seq<char>>)
    ensures
        mip_setting(comments) == Ok::<Option<bool>, PlyError>(None) <==> setting(
            comments,
            "mip"@,
        ) is None,
        mip_setting(comments) == Ok::<Option<bool>, PlyError>(Some(true)) <==> setting(
            comments,
            "mip"@,
        ) == Some("true"@),
        mip_setting(comments) == Ok::<Option<bool>, PlyError>(Some(false)) <==> setting(
            comments,
            "mip"@,
        ) == Some("false"@),
        mip_setting(comments) matches Err(e) ==> e == PlyError::MipSplatting,
{
    reveal_strlit("true");
    reveal_strlit("false");
    assert("true"@.len() == 4 && "false"@.len() == 5);
}

/// A file with three colour properties for each coefficient of a degree opens with
/// that degree.
pub proof fn file_opens_with_its_degree(
    r: Result<PlyReader, PlyError>,
    header: HeaderData,
    body: Seq<u8>,
    degree: int,
)
    requires
        opens(r, header, body),
        0 <= degree,
        color_properties(header) == 3 * ((degree + 1) * (degree + 1)),
        color_properties(header) < 0x1_0000_0000,
    ensures
        r matches Ok(reader) ==> reader.sh_deg == degree,
        r is Ok <==> mip_setting(header.comments) is Ok,
        r matches Err(e) ==> e == PlyError::MipSplatting,
{
    let n = num_coefs(color_properties(header) as int);
    assert(n == (degree + 1) * (degree + 1));
    assert(is_degree(degree, n));
    if let Ok(reader) = r {
        degree_is_unique(reader.sh_deg as int, degree, n);
    }
}

/// A file that opens has three colour properties for each coefficient of its degree,
/// one or two left over; one that is refused for their number has that of no degree.
pub proof fn colours_belong_to_the_degree(
    r: Result<PlyReader, PlyError>,
    header: HeaderData,
    body: Seq<u8>,
    d: int,
)
    requires
        opens(r, header, body),
        color_properties(header) < 0x1_0000_0000,
        0 <= d,
    ensures
        r matches Ok(reader) ==> 3 * ((reader.sh_deg + 1) * (reader.sh_deg + 1))
            <= color_properties(header) < 3 * ((reader.sh_deg + 1) * (reader.sh_deg + 1)) + 3,
        r matches Err(PlyError::ShCoefficients(number)) ==> number == color_properties(header) && !(3
            * ((d + 1) * (d + 1)) <= color_properties(header) < 3 * ((d + 1) * (d + 1)) + 3),
        r matches Err(e) ==> e is ShCoefficients || e is MipSplatting,
        3 * ((d + 1) * (d + 1)) <= color_properties(header) < 3 * ((d + 1) * (d + 1)) + 3 ==> (r is Err
            <==> mip_setting(header.comments) is Err),
        (r matches Err(e) && e is MipSplatting) ==> exists|degree: int|
            is_degree(degree, num_coefs(color_properties(header) as int)),
{
    let n = num_coefs(color_properties(header) as int);
    assert(n == color_properties(header) / 3);
    if 3 * ((d + 1) * (d + 1)) <= color_properties(header) < 3 * ((d + 1) * (d + 1)) + 3 {
        assert(is_degree(d, n));
    }
}

/// A reader takes over what the header says: how many vertices there are, whether
/// they have normals, and whether all three elements of a camera are there.
pub proof fn reader_follows_the_header(
    reader: PlyReader,
    header: HeaderData,
    body: Seq<u8>,
    v: int,
)
    requires
        reader_of(reader, header, body),
        0 <= v < header.elements.len(),
        header.elements[v].name == "vertex"@,
        forall|j: int| 0 <= j < v ==> (#[trigger] header.elements[j]).name != "vertex"@,
    ensures
        reader.num_points == header.elements[v].count,
        reader.has_normals <==> exists|i: int|
            0 <= i < header.elements[v].properties.len() && #[trigger] header.elements[v].properties[i]
                == "nx"@,
        reader.pos == 0,
        reader.body@ == body,
        reader.header@ == header,
        reader.kernel_size is Some <==> exists|i: int|
            0 <= i < header.comments.len() && holds(#[trigger] header.comments[i], "kernel_size"@),
        reader.background_color is Some <==> exists|i: int|
            0 <= i < header.comments.len() && holds(
                #[trigger] header.comments[i],
                "background_color"@,
            ),
        reader.kernel_size matches Some(size) ==> setting(header.comments, "kernel_size"@) == Some(
            size@,
        ),
        reader.background_color matches Some(channels) ==> (setting(
            header.comments,
            "background_color"@,
        ) matches Some(text) && texts(channels@) == pieces(text, ',')),
        mip_setting(header.comments) == Ok::<Option<bool>, PlyError>(reader.mip_splatting),
        reader.has_ml_sharp_camera == tells_of_camera(header),
{
    element_named_is_the_first(header.elements, "vertex"@, v);
    found_where_one_holds(header.comments, "kernel_size"@);
    found_where_one_holds(header.comments, "background_color"@);
}

/// A text is found exactly where one of them holds the word.
pub proof fn found_where_one_holds(all: Seq<Seq<char>>, word: Seq<char>)
    ensures
        first_holding(all, word) is Some <==> exists|i: int|
            0 <= i < all.len() && holds(#[trigger] all[i], word),
    decreases all.len(),
{
    if all.len() > 0 {
        let front = all.drop_last();
        found_where_one_holds(front, word);
        if first_holding(front, word) is Some {
            let i = choose|i: int| 0 <= i < front.len() && holds(#[trigger] front[i], word);
            assert(holds(all[i], word));
        } else if holds(all.last(), word) {
            assert(holds(all[all.len() - 1], word));
        } else {
            assert forall|i: int| 0 <= i < all.len() implies !holds(#[trigger] all[i], word) by {
                if i < front.len() {
                    assert(front[i] == all[i]);
                }
            }
        }
    }
}

/// An element is found exactly where there is one of its name.
pub proof fn found_where_one_is_named(elements: Seq<ElementData>, name: Seq<char>)
    ensures
        element_named(elements, name) is Some <==> exists|i: int|
            0 <= i < elements.len() && (#[trigger] elements[i]).name == name,
    decreases elements.len(),
{
    if elements.len() > 0 {
        let front = elements.drop_last();
        found_where_one_is_named(front, name);
        if element_named(front, name) is Some {
            let i = choose|i: int| 0 <= i < front.len() && (#[trigger] front[i]).name == name;
            assert(elements[i].name == name);
        } else if elements.last().name == name {
            assert(elements[elements.len() - 1].name == name);
        } else {
            assert forall|i: int| 0 <= i < elements.len() implies (#[trigger] elements[i]).name
                != name by {
                if i < front.len() {
                    assert(front[i] == elements[i]);
                }
            }
        }
    }
}

/// A camera takes all three of its elements.
pub proof fn cameras_are_complete(header: HeaderData, name: Seq<char>)
    requires
        name == "extrinsic"@ || name == "intrinsic"@ || name == "image_size"@,
        forall|i: int| 0 <= i < header.elements.len() ==> (#[trigger] header.elements[i]).name != name,
    ensures
        !tells_of_camera(header),
{
    found_where_one_is_named(header.elements, name);
}

/// Where all three elements of a camera are there, the header tells of one.
pub proof fn complete_cameras_are_told_of(header: HeaderData, e: int, i: int, s: int)
    requires
        0 <= e < header.elements.len() && header.elements[e].name == "extrinsic"@,
        0 <= i < header.elements.len() && header.elements[i].name == "intrinsic"@,
        0 <= s < header.elements.len() && header.elements[s].name == "image_size"@,
    ensures
        tells_of_camera(header),
{
    found_where_one_is_named(header.elements, "extrinsic"@);
    found_where_one_is_named(header.elements, "intrinsic"@);
    found_where_one_is_named(header.elements, "image_size"@);
}

/// The bytes from `at` on are twenty decimal digits.
pub open spec fn twenty_digits(s: Seq<u8>, at: int) -> bool {
    0 <= at && at + 20 <= s.len() && forall|k: int| at <= k < at + 20 ==> 48 <= #[trigger] s[k] <= 57
}

/// Ten to the power of `n`.
pub open spec fn ten_to(n: nat) -> int
    decreases n,
{
    if n == 0 {
        1
    } else {
        10 * ten_to((n - 1) as nat)
    }
}

/// So many digits make no larger number.
pub proof fn digits_bound_the_number(d: Seq<u8>)
    requires
        forall|k: int| 0 <= k < d.len() ==> 48 <= #[trigger] d[k] <= 57,
    ensures
        0 <= decimal(d) < ten_to(d.len()),
    decreases d.len(),
{
    if d.len() > 0 {
        assert forall|k: int| 0 <= k < d.drop_last().len() implies 48 <= #[trigger] d.drop_last()[k]
            <= 57 by {
            assert(d.drop_last()[k] == d[k]);
        }
        digits_bound_the_number(d.drop_last());
    }
}

/// No file is refused for its numbers that has none of twenty digits.
pub proof fn short_numbers_fit(s: Seq<u8>)
    requires
        forall|at: int| !#[trigger] twenty_digits(s, at),
    ensures
        header_numbers_fit(s),
{
    assert forall|line: int, i: int, j: int|
        crate::header::before_end(s, line) && #[trigger] number_in_line(s, line, i, j) implies decimal(
        s.subrange(i, j),
    ) <= 0xffff_ffff_ffff_ffff by {
        let d = s.subrange(i, j);
        if d.len() >= 20 {
            assert forall|k: int| i <= k < i + 20 implies 48 <= #[trigger] s[k] <= 57 by {
                assert(is_digit(s[k]));
            }
            assert(twenty_digits(s, i));
        }
        assert forall|k: int| 0 <= k < d.len() implies 48 <= #[trigger] d[k] <= 57 by {
            assert(is_digit(s[i + k]));
        }
        digits_bound_the_number(d);
        assert(ten_to(19) == 10_000_000_000_000_000_000) by {
            reveal_with_fuel(ten_to, 20);
        }
        powers_grow(d.len(), 19);
    }
}

/// A higher power is no smaller.
pub proof fn powers_grow(a: nat, b: nat)
    requires
        a <= b,
    ensures
        0 < ten_to(a) <= ten_to(b),
    decreases b,
{
    if b > 0 {
        if a < b {
            powers_grow(a, (b - 1) as nat);
        } else {
            powers_grow((a - 1) as nat, (b - 1) as nat);
        }
    }
}

/// The texts of a header are taken one for one.
pub proof fn texts_are_taken_one_for_one(s: Seq<String>, i: int)
    requires
        0 <= i < s.len(),
    ensures
        texts(s).len() == s.len(),
        texts(s)[i] == s[i]@,
{
}

} // verus!
