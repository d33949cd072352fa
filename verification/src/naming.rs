//! How the next output file is named: `<prefix><n>.<extension>`, where `n` is
//! one more than the highest index already used in the target folder by files
//! of the same prefix and extension family.
use vstd::prelude::*;
use crate::number::{
    all_digits, decimal, decimal_chars, digits_value, lemma_decimal_no_leading_zero,
    lemma_decimal_reads_back, lemma_parse_decimal, parse_u64, parsed_u64,
};
use crate::paths::{extension_of, join_path, joined_path, path_extension};
use crate::text::{
    chars_equal, chars_of, ends_with, extend_chars, lower_ascii, lower_ascii_char, slice_chars, starts_with,
    string_of, text_result, to_ascii_lowercase,
};

verus! {

pub open spec fn ext_png() -> Seq<char> {
    seq!['p', 'n', 'g']
}

pub open spec fn ext_jpg() -> Seq<char> {
    seq!['j', 'p', 'g']
}

pub open spec fn ext_jpeg() -> Seq<char> {
    seq!['j', 'p', 'e', 'g']
}

/// The extensions whose files share one numbering with files of extension
/// `ext`: PNG and JPEG images count together; any other extension counts alone.
/// The comparison ignores ASCII case.
pub open spec fn matching_extensions(ext: Seq<char>) -> Seq<Seq<char>> {
    let l = lower_ascii(ext);
    if l == ext_png() {
        seq![ext_png(), ext_jpg()]
    } else if l == ext_jpg() || l == ext_jpeg() {
        seq![ext_png(), ext_jpg(), ext_jpeg()]
    } else {
        seq![l]
    }
}

/// `.` followed by the extension.
pub open spec fn dotted(ext: Seq<char>) -> Seq<char> {
    seq!['.'] + ext
}

/// `stem` without the suffix `.e` of the first extension `e` in `exts` that
/// ends it.
pub open spec fn strip_first_suffix(stem: Seq<char>, exts: Seq<Seq<char>>) -> Option<Seq<char>>
    decreases exts.len(),
{
    if exts.len() == 0 {
        None
    } else if dotted(exts[0]).is_suffix_of(stem) {
        Some(stem.take(stem.len() - dotted(exts[0]).len()))
    } else {
        strip_first_suffix(stem, exts.drop_first())
    }
}

/// The index that the file name `name` holds in the family of `prefix` and
/// `exts`: `name` is `prefix`, a number other than zero, `.` and one of `exts`.
pub open spec fn family_index(name: Seq<char>, prefix: Seq<char>, exts: Seq<Seq<char>>) -> Option<u64> {
    if !prefix.is_prefix_of(name) {
        None
    } else {
        match strip_first_suffix(name.skip(prefix.len() as int), exts) {
            None => None,
            Some(core) => if core.len() == 0 {
                None
            } else {
                match parsed_u64(core) {
                    Some(n) => if n == 0 {
                        None
                    } else {
                        Some(n)
                    },
                    None => None,
                }
            },
        }
    }
}

/// The highest index held by the names of a listing, or zero.
pub open spec fn highest_index(names: Seq<Seq<char>>, prefix: Seq<char>, exts: Seq<Seq<char>>) -> u64
    decreases names.len(),
{
    if names.len() == 0 {
        0
    } else {
        let rest = highest_index(names.drop_last(), prefix, exts);
        match family_index(names.last(), prefix, exts) {
            Some(k) => if k > rest {
                k
            } else {
                rest
            },
            None => rest,
        }
    }
}

/// One more than `n`, staying at `u64::MAX`.
pub open spec fn saturating_inc(n: u64) -> u64 {
    if n == u64::MAX {
        n
    } else {
        (n + 1) as u64
    }
}

/// The index that the next file of the family gets.
pub open spec fn next_index(names: Seq<Seq<char>>, prefix: Seq<char>, exts: Seq<Seq<char>>) -> u64 {
    saturating_inc(highest_index(names, prefix, exts))
}

/// The name of the next file with extension `ext` among the listed `names`.
pub open spec fn output_name(prefix: Seq<char>, ext: Seq<char>, names: Seq<Seq<char>>) -> Seq<char> {
    prefix + decimal(next_index(names, prefix, matching_extensions(ext)) as nat) + seq!['.'] + ext
}

/// The message for an input file whose path has no usable extension.
pub open spec fn no_extension_message(input: Seq<char>) -> Seq<char> {
    "input file has no valid extension: "@ + input
}

/// Where the input file goes in `target_dir`, given the names listed there.
pub open spec fn output_path(
    target_dir: Seq<char>,
    prefix: Seq<char>,
    input: Seq<char>,
    names: Seq<Seq<char>>,
) -> Result<Seq<char>, Seq<char>> {
    match path_extension(input) {
        None => Err(no_extension_message(input)),
        Some(ext) => Ok(joined_path(target_dir, output_name(prefix, ext, names))),
    }
}

/// A string holding the given characters.
fn literal(c: &[char]) -> (s: String)
    ensures
        s@ == c@,
{
    string_of(c)
}

/// The extensions that share one numbering with `extension`.
pub fn matching_extensions_for(extension: &str) -> (r: Vec<String>)
    ensures
        r.deep_view() == matching_extensions(extension@),
{
    let lower = to_ascii_lowercase(&chars_of(extension));
    let png = ['p', 'n', 'g'];
    let jpg = ['j', 'p', 'g'];
    let jpeg = ['j', 'p', 'e', 'g'];
    assert(png@ == ext_png());
    assert(jpg@ == ext_jpg());
    assert(jpeg@ == ext_jpeg());
    let mut r: Vec<String> = Vec::new();
    if chars_equal(&lower, &png) {
        r.push(literal(&png));
        r.push(literal(&jpg));
        assert(r.deep_view() =~= seq![ext_png(), ext_jpg()]);
    } else if chars_equal(&lower, &jpg) || chars_equal(&lower, &jpeg) {
        r.push(literal(&png));
        r.push(literal(&jpg));
        r.push(literal(&jpeg));
        assert(r.deep_view() =~= seq![ext_png(), ext_jpg(), ext_jpeg()]);
    } else {
        r.push(string_of(&lower));
        assert(r.deep_view() =~= seq![lower@]);
    }
    r
}

/// The index that `file_name` holds in the family of `prefix` and
/// `matching_extensions`, if it belongs to it.
pub fn parse_index(file_name: &str, prefix: &str, matching_extensions: &[String]) -> (r: Option<u64>)
    ensures
        r == family_index(file_name@, prefix@, matching_extensions.deep_view()),
{
    let ghost exts = matching_extensions.deep_view();
    let name = chars_of(file_name);
    let pre = chars_of(prefix);
    if !starts_with(&name, &pre) {
        return None;
    }
    let stem = slice_chars(&name, pre.len(), name.len());
    assert(stem@ == file_name@.skip(prefix@.len() as int));
    let mut i: usize = 0;
    assert(exts.skip(0) =~= exts);
    while i < matching_extensions.len()
        invariant
            i <= matching_extensions.len(),
            exts == matching_extensions.deep_view(),
            exts.len() == matching_extensions.len(),
            prefix@.is_prefix_of(file_name@),
            stem@ == file_name@.skip(prefix@.len() as int),
            strip_first_suffix(stem@, exts) == strip_first_suffix(stem@, exts.skip(i as int)),
        decreases matching_extensions.len() - i,
    {
        let mut d: Vec<char> = Vec::new();
        d.push('.');
        extend_chars(&mut d, &chars_of(matching_extensions[i].as_str()));
        assert(exts[i as int] == matching_extensions[i as int]@);
        assert(d@ =~= dotted(exts[i as int]));
        assert(exts.skip(i as int)[0] == exts[i as int]);
        assert(exts.skip(i as int).drop_first() =~= exts.skip(i + 1));
        if ends_with(&stem, &d) {
            let core = slice_chars(&stem, 0, stem.len() - d.len());
            assert(core@ =~= stem@.take(stem@.len() - d@.len()));
            return index_of_core(&core);
        }
        i = i + 1;
    }
    assert(exts.skip(i as int) =~= Seq::<Seq<char>>::empty());
    None
}

/// The index that the part of a file name between prefix and extension stands for.
fn index_of_core(core: &[char]) -> (r: Option<u64>)
    ensures
        r == (if core@.len() == 0 {
            None
        } else {
            match parsed_u64(core@) {
                Some(n) => if n == 0 {
                    None
                } else {
                    Some(n)
                },
                None => None,
            }
        }),
{
    if core.len() == 0 {
        return None;
    }
    match parse_u64(core) {
        Some(n) => if n == 0 {
            None
        } else {
            Some(n)
        },
        None => None,
    }
}

/// The name of the next file with `extension` in a folder whose entries are
/// `file_names`: `prefix`, one more than the highest index already held by a
/// name of the family, `.` and `extension`.
pub fn next_file_name(prefix: &str, extension: &str, file_names: &Vec<String>) -> (r: String)
    ensures
        r@ == output_name(prefix@, extension@, file_names.deep_view()),
{
    let ghost names = file_names.deep_view();
    let exts = matching_extensions_for(extension);
    let ghost family = exts.deep_view();
    let mut max_index: u64 = 0;
    let mut i: usize = 0;
    assert(names.take(0) =~= Seq::<Seq<char>>::empty());
    while i < file_names.len()
        invariant
            i <= file_names.len(),
            names == file_names.deep_view(),
            names.len() == file_names.len(),
            family == exts.deep_view(),
            family == matching_extensions(extension@),
            max_index == highest_index(names.take(i as int), prefix@, family),
        decreases file_names.len() - i,
    {
        let found = parse_index(file_names[i].as_str(), prefix, exts.as_slice());
        assert(names[i as int] == file_names[i as int]@);
        if let Some(index) = found {
            if index > max_index {
                max_index = index;
            }
        }
        i = i + 1;
        assert(names.take(i as int).drop_last() =~= names.take(i - 1));
        assert(names.take(i as int).last() == names[i - 1]);
    }
    assert(names.take(file_names.len() as int) =~= names);
    let next: u64 = if max_index == u64::MAX { max_index } else { max_index + 1 };
    let mut v = chars_of(prefix);
    extend_chars(&mut v, &decimal_chars(next));
    v.push('.');
    extend_chars(&mut v, &chars_of(extension));
    string_of(&v)
}

/// The message for an input file whose path has no usable extension.
pub fn no_extension_error(input: &str) -> (e: String)
    ensures
        e@ == no_extension_message(input@),
{
    let mut m = String::from_str("input file has no valid extension: ");
    m.append(input);
    m
}

/// Where `input` goes in `target_dir`, whose entries are `file_names`: the
/// folder joined with the next file name of the input's extension family.
/// An input path without an extension is refused.
pub fn next_output_path(target_dir: &str, prefix: &str, input: &str, file_names: &Vec<String>) -> (r: Result<String, String>)
    ensures
        text_result(r) == output_path(target_dir@, prefix@, input@, file_names.deep_view()),
{
    let extension = match extension_of(input) {
        Some(e) => e,
        None => {
            return Err(no_extension_error(input));
        },
    };
    let name = next_file_name(prefix, extension.as_str(), file_names);
    Ok(join_path(target_dir, name.as_str()))
}

// ---------------------------------------------------------------------------
// Laws of the numbering
// ---------------------------------------------------------------------------

/// The highest index is at least every index held by a listed name.
proof fn lemma_highest_is_upper_bound(names: Seq<Seq<char>>, prefix: Seq<char>, exts: Seq<Seq<char>>)
    ensures
        forall|i: int| #![trigger names[i]]
            0 <= i < names.len() && family_index(names[i], prefix, exts) is Some
                ==> family_index(names[i], prefix, exts)->0 <= highest_index(names, prefix, exts),
    decreases names.len(),
{
    if names.len() > 0 {
        lemma_highest_is_upper_bound(names.drop_last(), prefix, exts);
        assert forall|i: int| #![trigger names[i]]
            0 <= i < names.len() && family_index(names[i], prefix, exts) is Some
                implies family_index(names[i], prefix, exts)->0 <= highest_index(names, prefix, exts) by {
            if i < names.len() - 1 {
                assert(names.drop_last()[i] == names[i]);
            }
        }
    }
}

/// The highest index is zero or held by one of the listed names.
proof fn lemma_highest_is_attained(names: Seq<Seq<char>>, prefix: Seq<char>, exts: Seq<Seq<char>>)
    ensures
        highest_index(names, prefix, exts) == 0 || exists|i: int| #![trigger names[i]]
            0 <= i < names.len() && family_index(names[i], prefix, exts) == Some(highest_index(names, prefix, exts)),
    decreases names.len(),
{
    if names.len() > 0 {
        lemma_highest_is_attained(names.drop_last(), prefix, exts);
        let h = highest_index(names, prefix, exts);
        if h != 0 && h == highest_index(names.drop_last(), prefix, exts) {
            let i = choose|i: int| #![trigger names.drop_last()[i]]
                0 <= i < names.drop_last().len() && family_index(names.drop_last()[i], prefix, exts) == Some(h);
            assert(names[i] == names.drop_last()[i]);
        } else if h != 0 {
            assert(names[names.len() - 1] == names.last());
        }
    }
}

/// The next index is above the index of every file of the family already in
/// the folder, unless the highest one is already `u64::MAX`.
pub proof fn law_next_index_exceeds_existing(names: Seq<Seq<char>>, prefix: Seq<char>, exts: Seq<Seq<char>>)
    ensures
        forall|i: int| #![trigger names[i]]
            0 <= i < names.len() && family_index(names[i], prefix, exts) is Some
                ==> family_index(names[i], prefix, exts)->0 < next_index(names, prefix, exts)
                || highest_index(names, prefix, exts) == u64::MAX,
{
    lemma_highest_is_upper_bound(names, prefix, exts);
}

/// `decimal(n) + ".e"` loses exactly `".e"` when stripped with the one-extension family `[e]`.
proof fn lemma_strip_own_extension(digits: Seq<char>, e: Seq<char>, exts: Seq<Seq<char>>, k: int)
    requires
        0 <= k < exts.len(),
        exts[k] == e,
        forall|j: int| 0 <= j < k ==> !(#[trigger] dotted(exts[j])).is_suffix_of(digits + dotted(e)),
    ensures
        strip_first_suffix(digits + dotted(e), exts) == Some(digits),
    decreases k,
{
    let stem = digits + dotted(e);
    assert(dotted(e).is_suffix_of(stem)) by {
        assert(stem.subrange(stem.len() - dotted(e).len(), stem.len() as int) =~= dotted(e));
    }
    if k == 0 {
        assert(stem.take(stem.len() - dotted(e).len()) =~= digits);
    } else {
        assert(!dotted(exts[0]).is_suffix_of(stem));
        assert forall|j: int| 0 <= j < k - 1 implies !(#[trigger] dotted(exts.drop_first()[j])).is_suffix_of(stem) by {
            assert(exts.drop_first()[j] == exts[j + 1]);
        }
        lemma_strip_own_extension(digits, e, exts.drop_first(), k - 1);
    }
}

/// Lower-casing an ASCII-lowered character changes nothing.
proof fn lemma_lower_char_idempotent(c: char)
    ensures
        lower_ascii_char(lower_ascii_char(c)) == lower_ascii_char(c),
{
    if 'A' <= c && c <= 'Z' {
        assert((c as u32 + 32) as char as u32 == c as u32 + 32);
    }
}

/// The family of an extension does not depend on its ASCII case.
pub proof fn law_family_ignores_case(ext: Seq<char>)
    ensures
        matching_extensions(ext) == matching_extensions(lower_ascii(ext)),
{
    assert forall|i: int| 0 <= i < ext.len() implies #[trigger] lower_ascii(lower_ascii(ext))[i] == lower_ascii(ext)[i] by {
        lemma_lower_char_idempotent(ext[i]);
    }
    assert(lower_ascii(lower_ascii(ext)) =~= lower_ascii(ext));
}

/// The name given to the next file holds the next index in its own family,
/// when the extension is already in ASCII lower case.
pub proof fn law_output_name_holds_next_index(prefix: Seq<char>, ext: Seq<char>, names: Seq<Seq<char>>)
    requires
        lower_ascii(ext) == ext,
    ensures
        family_index(output_name(prefix, ext, names), prefix, matching_extensions(ext))
            == Some(next_index(names, prefix, matching_extensions(ext))),
{
    let exts = matching_extensions(ext);
    let n = next_index(names, prefix, exts);
    let digits = decimal(n as nat);
    let name = output_name(prefix, ext, names);
    assert(name =~= prefix + (digits + dotted(ext)));
    assert(prefix.is_prefix_of(name)) by {
        assert(name.subrange(0, prefix.len() as int) =~= prefix);
    }
    assert(name.skip(prefix.len() as int) =~= digits + dotted(ext));
    lemma_decimal_reads_back(n as nat);
    lemma_parse_decimal(n);
    let stem = digits + dotted(ext);
    let tail4 = stem.subrange(stem.len() - 4, stem.len() as int);
    if ext == ext_png() {
        lemma_strip_own_extension(digits, ext, exts, 0);
    } else if ext == ext_jpg() {
        assert(tail4 =~= seq!['.', 'j', 'p', 'g']);
        assert(!dotted(exts[0]).is_suffix_of(stem)) by {
            assert(dotted(exts[0])[1] != tail4[1]);
        }
        lemma_strip_own_extension(digits, ext, exts, 1);
    } else if ext == ext_jpeg() {
        assert(tail4 =~= seq!['j', 'p', 'e', 'g']);
        assert(!dotted(exts[0]).is_suffix_of(stem)) by {
            assert(dotted(exts[0])[0] != tail4[0]);
        }
        assert(!dotted(exts[1]).is_suffix_of(stem)) by {
            assert(dotted(exts[1])[0] != tail4[0]);
        }
        lemma_strip_own_extension(digits, ext, exts, 2);
    } else {
        lemma_strip_own_extension(digits, ext, exts, 0);
    }
}

/// The next file name differs from every name already in the folder, when
/// the extension is in ASCII lower case and the indices are not exhausted.
pub proof fn law_output_name_is_new(prefix: Seq<char>, ext: Seq<char>, names: Seq<Seq<char>>)
    requires
        lower_ascii(ext) == ext,
        highest_index(names, prefix, matching_extensions(ext)) < u64::MAX,
    ensures
        !names.contains(output_name(prefix, ext, names)),
{
    let exts = matching_extensions(ext);
    law_output_name_holds_next_index(prefix, ext, names);
    lemma_highest_is_upper_bound(names, prefix, exts);
    if names.contains(output_name(prefix, ext, names)) {
        let i = choose|i: int| 0 <= i < names.len() && names[i] == output_name(prefix, ext, names);
        assert(family_index(names[i], prefix, exts) == Some(next_index(names, prefix, exts)));
    }
}

/// Once the new file is in the folder, asking again gives the following index.
pub proof fn law_next_index_advances(prefix: Seq<char>, ext: Seq<char>, names: Seq<Seq<char>>)
    requires
        lower_ascii(ext) == ext,
    ensures
        next_index(names.push(output_name(prefix, ext, names)), prefix, matching_extensions(ext))
            == saturating_inc(next_index(names, prefix, matching_extensions(ext))),
{
    let exts = matching_extensions(ext);
    law_output_name_holds_next_index(prefix, ext, names);
    let grown = names.push(output_name(prefix, ext, names));
    assert(grown.drop_last() =~= names);
}

/// Names outside the family do not change the next index.
pub proof fn law_other_names_do_not_count(names: Seq<Seq<char>>, other: Seq<char>, prefix: Seq<char>, exts: Seq<Seq<char>>)
    requires
        family_index(other, prefix, exts) is None,
    ensures
        next_index(names.push(other), prefix, exts) == next_index(names, prefix, exts),
{
    assert(names.push(other).drop_last() =~= names);
}

/// The order in which the folder lists its entries does not matter: two
/// listings with the same names give the same next index.
pub proof fn law_listing_order_does_not_matter(
    names1: Seq<Seq<char>>,
    names2: Seq<Seq<char>>,
    prefix: Seq<char>,
    exts: Seq<Seq<char>>,
)
    requires
        forall|x: Seq<char>| names1.contains(x) <==> names2.contains(x),
    ensures
        next_index(names1, prefix, exts) == next_index(names2, prefix, exts),
{
    lemma_highest_is_upper_bound(names1, prefix, exts);
    lemma_highest_is_upper_bound(names2, prefix, exts);
    lemma_highest_is_attained(names1, prefix, exts);
    lemma_highest_is_attained(names2, prefix, exts);
    let h1 = highest_index(names1, prefix, exts);
    let h2 = highest_index(names2, prefix, exts);
    if h1 != 0 {
        let i = choose|i: int| #![trigger names1[i]]
            0 <= i < names1.len() && family_index(names1[i], prefix, exts) == Some(h1);
        assert(names1.contains(names1[i]));
        assert(names2.contains(names1[i]));
        let j = choose|j: int| 0 <= j < names2.len() && names2[j] == names1[i];
        assert(family_index(names2[j], prefix, exts) == Some(h1));
        assert(h1 <= h2);
    }
    if h2 != 0 {
        let i = choose|i: int| #![trigger names2[i]]
            0 <= i < names2.len() && family_index(names2[i], prefix, exts) == Some(h2);
        assert(names2.contains(names2[i]));
        assert(names1.contains(names2[i]));
        let j = choose|j: int| 0 <= j < names1.len() && names1[j] == names2[i];
        assert(family_index(names1[j], prefix, exts) == Some(h2));
        assert(h2 <= h1);
    }
}

/// The next file's name is the prefix, then the next index written in plain
/// decimal digits (no sign, no leading zero), then `.` and the extension
/// exactly as given.
pub proof fn law_output_name_form(prefix: Seq<char>, ext: Seq<char>, names: Seq<Seq<char>>)
    ensures
        ({
            let name = output_name(prefix, ext, names);
            let n = next_index(names, prefix, matching_extensions(ext));
            let digits = name.subrange(prefix.len() as int, name.len() - ext.len() - 1);
            &&& name.len() > prefix.len() + ext.len() + 1
            &&& name.subrange(0, prefix.len() as int) == prefix
            &&& name[name.len() - ext.len() - 1] == '.'
            &&& name.subrange(name.len() - ext.len(), name.len() as int) == ext
            &&& all_digits(digits)
            &&& digits[0] != '0'
            &&& digits_value(digits) == n
        }),
{
    let n = next_index(names, prefix, matching_extensions(ext));
    let d = decimal(n as nat);
    let name = output_name(prefix, ext, names);
    lemma_decimal_reads_back(n as nat);
    lemma_decimal_no_leading_zero(n as nat);
    assert(name.len() == prefix.len() + d.len() + 1 + ext.len());
    assert(name.subrange(0, prefix.len() as int) =~= prefix);
    assert(name.subrange(prefix.len() as int, name.len() - ext.len() - 1) =~= d);
    assert(name[name.len() - ext.len() - 1] == '.');
    assert(name.subrange(name.len() - ext.len(), name.len() as int) =~= ext);
}

/// Which extensions share a numbering: `png` with `jpg`; `jpg` and `jpeg`
/// with `png`; every other extension only with itself. Case is ignored, and
/// the family's extensions are in lower case.
pub proof fn law_family_of_extension(ext: Seq<char>)
    ensures
        lower_ascii(ext) == ext_png() ==> matching_extensions(ext) == seq![ext_png(), ext_jpg()],
        lower_ascii(ext) == ext_jpg() || lower_ascii(ext) == ext_jpeg()
            ==> matching_extensions(ext) == seq![ext_png(), ext_jpg(), ext_jpeg()],
        lower_ascii(ext) != ext_png() && lower_ascii(ext) != ext_jpg() && lower_ascii(ext) != ext_jpeg()
            ==> matching_extensions(ext) == seq![lower_ascii(ext)],
{
}

/// A file outside the image family does not count for an extension outside
/// it: for an extension whose lower-case form is not `png`, `jpg` or `jpeg`,
/// only names ending in `.` and that lower-case form hold an index.
pub proof fn law_other_extension_counts_alone(name: Seq<char>, prefix: Seq<char>, ext: Seq<char>)
    requires
        lower_ascii(ext) != ext_png(),
        lower_ascii(ext) != ext_jpg(),
        lower_ascii(ext) != ext_jpeg(),
        family_index(name, prefix, matching_extensions(ext)) is Some,
    ensures
        dotted(lower_ascii(ext)).is_suffix_of(name),
{
    let exts = matching_extensions(ext);
    let stem = name.skip(prefix.len() as int);
    assert(exts == seq![lower_ascii(ext)]);
    assert(exts.drop_first() =~= Seq::<Seq<char>>::empty());
    let d = dotted(lower_ascii(ext));
    assert(prefix.is_prefix_of(name));
    assert(strip_first_suffix(stem, exts) is Some);
    assert(strip_first_suffix(stem, exts.drop_first()) is None);
    assert(exts[0] == lower_ascii(ext));
    assert(d.is_suffix_of(stem));
    assert(name.subrange(name.len() - d.len(), name.len() as int) =~= stem.subrange(stem.len() - d.len(), stem.len() as int));
}

} // verus!
