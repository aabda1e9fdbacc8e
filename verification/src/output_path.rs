//! Where the result of a conversion is written: beside the input, under a
//! name that no other file of the directory has.

use crate::formats::MediaFormat;
use crate::paths::{file_stem_of, join_of, parent_of, path_file_stem, path_join, path_parent};
use crate::text::{contains_str, decimal, lemma_decimal_injective, lemma_decimal_value, u64_to_string, views};
use vstd::prelude::*;
use vstd::string::*;

verus! {

/// The `n`th name that is tried for the output of an input with the stem
/// `stem`: `<stem>_converted.<ext>` first, then `<stem>_converted_1.<ext>`,
/// `<stem>_converted_2.<ext>` and so on.
pub open spec fn converted_name(stem: Seq<char>, ext: Seq<char>, n: nat) -> Seq<char> {
    if n == 0 {
        stem + "_converted."@ + ext
    } else {
        stem + "_converted_"@ + decimal(n) + "."@ + ext
    }
}

/// Whether no file of the directory has the `n`th name.
pub open spec fn is_free(existing: Seq<Seq<char>>, stem: Seq<char>, ext: Seq<char>, n: nat) -> bool {
    !existing.contains(converted_name(stem, ext, n))
}

/// The number of the first name, counting from `from`, that no file of the
/// directory has.
pub open spec fn first_free_from(
    existing: Seq<Seq<char>>,
    stem: Seq<char>,
    ext: Seq<char>,
    from: nat,
) -> nat
    decreases existing.len() + 1 - from,
{
    if from > existing.len() || is_free(existing, stem, ext, from) {
        from
    } else {
        first_free_from(existing, stem, ext, from + 1)
    }
}

/// The number of the first name that no file of the directory has.
pub open spec fn first_free(existing: Seq<Seq<char>>, stem: Seq<char>, ext: Seq<char>) -> nat {
    first_free_from(existing, stem, ext, 0)
}

/// The name of the output file: the first name of all where overwriting is
/// allowed, else the first that no file of the directory has.
pub open spec fn output_name(
    existing: Seq<Seq<char>>,
    stem: Seq<char>,
    ext: Seq<char>,
    overwrite: bool,
) -> Seq<char> {
    if overwrite {
        converted_name(stem, ext, 0)
    } else {
        converted_name(stem, ext, first_free(existing, stem, ext))
    }
}

/// What stands for an absent part of a path: the empty text.
pub open spec fn or_empty(t: Option<Seq<char>>) -> Seq<char> {
    match t {
        Some(s) => s,
        None => Seq::empty(),
    }
}

/// The path of the output file for an input: in the directory of the input,
/// under the name that [`output_name`] gives for the input's stem.
pub open spec fn output_path(
    input: Seq<char>,
    ext: Seq<char>,
    overwrite: bool,
    existing: Seq<Seq<char>>,
) -> Seq<char> {
    join_of(
        or_empty(parent_of(input)),
        output_name(existing, or_empty(file_stem_of(input)), ext, overwrite),
    )
}

/// Names with different numbers differ.
pub proof fn lemma_names_differ(stem: Seq<char>, ext: Seq<char>, a: nat, b: nat)
    requires
        a != b,
    ensures
        converted_name(stem, ext, a) != converted_name(stem, ext, b),
{
    reveal_strlit("_converted.");
    reveal_strlit("_converted_");
    reveal_strlit(".");
    let na = converted_name(stem, ext, a);
    let nb = converted_name(stem, ext, b);
    let p = stem.len() as int;
    if a == 0 {
        assert(na[p + 10] == '.');
        assert(nb[p + 10] == '_');
    } else if b == 0 {
        assert(na[p + 10] == '_');
        assert(nb[p + 10] == '.');
    } else {
        lemma_decimal_value(a);
        lemma_decimal_value(b);
        if na == nb {
            let la = decimal(a).len() as int;
            let lb = decimal(b).len() as int;
            assert(na.len() == p + 11 + la + 1 + ext.len());
            assert(nb.len() == p + 11 + lb + 1 + ext.len());
            assert(la == lb);
            assert(na.subrange(p + 11, p + 11 + la) =~= decimal(a));
            assert(nb.subrange(p + 11, p + 11 + lb) =~= decimal(b));
            lemma_decimal_injective(a, b);
        }
    }
}

/// Where the first `m` names are all taken, the directory has at least `m`
/// files.
pub proof fn lemma_taken_names_bounded(
    existing: Seq<Seq<char>>,
    stem: Seq<char>,
    ext: Seq<char>,
    m: nat,
)
    requires
        forall|j: nat| j < m ==> !is_free(existing, stem, ext, j),
    ensures
        m <= existing.len(),
{
    let names = Seq::new(m, |j: int| converted_name(stem, ext, j as nat));
    assert(names.no_duplicates()) by {
        assert forall|i: int, j: int| 0 <= i < names.len() && 0 <= j < names.len() && i != j implies names[i]
            != names[j] by {
            lemma_names_differ(stem, ext, i as nat, j as nat);
        }
    }
    names.unique_seq_to_set();
    existing.lemma_cardinality_of_set();
    assert(names.to_set().subset_of(existing.to_set())) by {
        assert forall|x: Seq<char>| names.to_set().contains(x) implies existing.to_set().contains(
            x,
        ) by {
            let j = choose|j: int| 0 <= j < names.len() && names[j] == x;
            assert(!is_free(existing, stem, ext, j as nat));
        }
    }
    vstd::seq_lib::seq_to_set_is_finite(existing);
    vstd::set_lib::lemma_len_subset(names.to_set(), existing.to_set());
}

/// The first free name is free, and every name before it is taken.
pub proof fn lemma_first_free(existing: Seq<Seq<char>>, stem: Seq<char>, ext: Seq<char>)
    ensures
        is_free(existing, stem, ext, first_free(existing, stem, ext)),
        forall|j: nat| j < first_free(existing, stem, ext) ==> !is_free(existing, stem, ext, j),
        first_free(existing, stem, ext) <= existing.len(),
{
    lemma_first_free_from(existing, stem, ext, 0);
}

proof fn lemma_first_free_from(existing: Seq<Seq<char>>, stem: Seq<char>, ext: Seq<char>, from: nat)
    requires
        from <= existing.len(),
        forall|j: nat| j < from ==> !is_free(existing, stem, ext, j),
    ensures
        is_free(existing, stem, ext, first_free_from(existing, stem, ext, from)),
        forall|j: nat|
            j < first_free_from(existing, stem, ext, from) ==> !is_free(existing, stem, ext, j),
        from <= first_free_from(existing, stem, ext, from) <= existing.len(),
    decreases existing.len() + 1 - from,
{
    if !is_free(existing, stem, ext, from) {
        lemma_taken_names_bounded(existing, stem, ext, from + 1);
        lemma_first_free_from(existing, stem, ext, from + 1);
    }
}

/// The output never takes the name of a file that is there, unless
/// overwriting is allowed.
pub proof fn lemma_output_name_is_new(
    existing: Seq<Seq<char>>,
    stem: Seq<char>,
    ext: Seq<char>,
)
    ensures
        !existing.contains(output_name(existing, stem, ext, false)),
{
    lemma_first_free(existing, stem, ext);
}

/// Builds the `n`th name, see [`converted_name`].
pub fn build_converted_name(stem: &str, ext: &str, n: u64) -> (r: String)
    ensures
        r@ == converted_name(stem@, ext@, n as nat),
{
    let mut name = String::from_str(stem);
    if n == 0 {
        name.append("_converted.");
    } else {
        name.append("_converted_");
        let digits = u64_to_string(n);
        name.append(digits.as_str());
        name.append(".");
    }
    name.append(ext);
    proof {
        assert(name@ =~= converted_name(stem@, ext@, n as nat));
    }
    name
}

/// The name of the output file for an input with the stem `stem`, in a
/// directory whose files are named `existing`: `<stem>_converted.<ext>`
/// where overwriting is allowed or that name is free, else the first of
/// `<stem>_converted_1.<ext>`, `<stem>_converted_2.<ext>`, ... that is free.
pub fn choose_output_name(stem: &str, ext: &str, overwrite: bool, existing: &Vec<String>) -> (r:
    String)
    ensures
        r@ == output_name(views(existing@), stem@, ext@, overwrite),
        !overwrite ==> !views(existing@).contains(r@),
{
    let mut name = build_converted_name(stem, ext, 0);
    if overwrite {
        return name;
    }
    let ghost taken = views(existing@);
    let total: usize = existing.len();
    let mut n: usize = 0;
    while contains_str(existing, name.as_str())
        invariant
            taken == views(existing@),
            total == existing@.len(),
            n <= total,
            name@ == converted_name(stem@, ext@, n as nat),
            first_free(taken, stem@, ext@) == first_free_from(taken, stem@, ext@, n as nat),
            forall|j: nat| j < n ==> !is_free(taken, stem@, ext@, j),
        decreases total - n,
    {
        proof {
            lemma_taken_names_bounded(taken, stem@, ext@, (n + 1) as nat);
        }
        n += 1;
        name = build_converted_name(stem, ext, n as u64);
    }
    name
}

/// The path under which the result of converting `input_path` to
/// `new_format` is written: in the directory of the input, named after the
/// input's stem. `existing` holds the names of the files that the directory
/// has; unless `overwrite` is set, none of them is chosen.
pub fn get_output_path(
    input_path: &str,
    new_format: &MediaFormat,
    overwrite: bool,
    existing: &Vec<String>,
) -> (r: String)
    ensures
        r@ == output_path(input_path@, new_format.ext_spec(), overwrite, views(existing@)),
{
    let stem = match path_file_stem(input_path) {
        Some(s) => s,
        None => String::new(),
    };
    let parent = match path_parent(input_path) {
        Some(p) => p,
        None => String::new(),
    };
    let name = choose_output_name(stem.as_str(), new_format.ext(), overwrite, existing);
    path_join(parent.as_str(), name.as_str())
}

} // verus!
