//! The file names under which texture images are staged beside the IDTF
//! document: each image keeps its (sanitized) stem and extension, and a
//! stem met again is numbered `-1`, `-2`, ..., one number after another,
//! skipping the name of the image's own file.
use vstd::prelude::*;
use vstd::string::*;
use crate::text::{
    concat, decimal, decimal_string, lemma_decimal_injective, lemma_decimal_len, sanitize_file_component,
    spec_sanitize_file_component, str_equal,
};

verus! {

/// What the staging of one texture image needs to know of it.
#[derive(Clone, Debug)]
pub struct StagingRequest {
    /// The stem of the image's file name, where it has one in Unicode.
    pub file_stem: Option<String>,
    /// The extension of the image's file name, where it has one in Unicode.
    pub extension: Option<String>,
    /// The IDTF name of the texture, the stem's stand-in.
    pub texture_name: String,
    /// The image's file name, where the image already lies in the staging
    /// folder.
    pub name_in_staging: Option<String>,
}

/// The sanitized stem under which an image is staged.
pub open spec fn request_base(r: StagingRequest) -> Seq<char> {
    spec_sanitize_file_component(
        match r.file_stem {
            Some(s) => s@,
            None => r.texture_name@,
        },
    )
}

/// The extension of a staged image, with its dot, or nothing.
pub open spec fn request_extension(r: StagingRequest) -> Seq<char> {
    match r.extension {
        Some(e) => "."@ + e@,
        None => ""@,
    }
}

/// Candidate `k` for a stem and extension: the plain name first, then the
/// stem numbered `-k`.
pub open spec fn staged_name(base: Seq<char>, ext: Seq<char>, k: nat) -> Seq<char> {
    if k == 0 {
        base + ext
    } else {
        base + "-"@ + decimal(k) + ext
    }
}

/// Whether staging under `name` would overwrite the image itself.
pub open spec fn clashes(r: StagingRequest, name: Seq<char>) -> bool {
    r.name_in_staging matches Some(n) && n@ == name
}

/// The first candidate number that stem `base` may take after the first
/// `i` requests.
pub open spec fn next_sequence(reqs: Seq<StagingRequest>, i: int, base: Seq<char>) -> nat
    decreases i, 0int,
{
    if i <= 0 {
        0
    } else if request_base(reqs[i - 1]) == base {
        chosen_sequence(reqs, i - 1) + 1
    } else {
        next_sequence(reqs, i - 1, base)
    }
}

/// The candidate number that request `j` takes: its stem's next number,
/// one further when that candidate is the image's own file.
pub open spec fn chosen_sequence(reqs: Seq<StagingRequest>, j: int) -> nat
    decreases j, 1int,
{
    let r = reqs[j];
    let s = next_sequence(reqs, j, request_base(r));
    if clashes(r, staged_name(request_base(r), request_extension(r), s)) {
        s + 1
    } else {
        s
    }
}

/// The staged file name of request `i`.
pub open spec fn spec_staged_file_name(reqs: Seq<StagingRequest>, i: int) -> Seq<char> {
    staged_name(request_base(reqs[i]), request_extension(reqs[i]), chosen_sequence(reqs, i))
}

fn staged_name_text(base: &str, ext: &str, k: usize) -> (out: String)
    ensures
        out@ == staged_name(base@, ext@, k as nat),
{
    if k == 0 {
        concat(base, ext)
    } else {
        let a = concat(base, "-");
        let b = concat(a.as_str(), decimal_string(k as u64).as_str());
        proof {
            reveal_strlit("-");
        }
        let out = concat(b.as_str(), ext);
        assert(out@ =~= staged_name(base@, ext@, k as nat));
        out
    }
}

fn clashes_with(r: &StagingRequest, name: &str) -> (c: bool)
    ensures
        c == clashes(*r, name@),
{
    match &r.name_in_staging {
        Some(n) => str_equal(n.as_str(), name),
        None => false,
    }
}

/// The position of `name` in `keys`, if it is there.
fn find_key(keys: &Vec<String>, name: &str) -> (r: Option<usize>)
    ensures
        match r {
            Some(j) => j < keys@.len() && keys@[j as int]@ == name@,
            None => forall|j: int| 0 <= j < keys@.len() ==> (#[trigger] keys@[j])@ != name@,
        },
{
    let mut j: usize = 0;
    while j < keys.len()
        invariant
            j <= keys@.len(),
            forall|q: int| 0 <= q < j ==> (#[trigger] keys@[q])@ != name@,
        decreases keys@.len() - j,
    {
        if str_equal(keys[j].as_str(), name) {
            return Some(j);
        }
        j = j + 1;
    }
    None
}

/// The staged file names of a list of texture images, in order.
pub fn staged_file_names(requests: &Vec<StagingRequest>) -> (names: Vec<String>)
    requires
        2 * requests@.len() + 2 < usize::MAX,
    ensures
        names@.len() == requests@.len(),
        forall|i: int|
            0 <= i < requests@.len() ==> (#[trigger] names@[i])@ == spec_staged_file_name(
                requests@,
                i,
            ),
{
    let ghost reqs = requests@;
    let mut keys: Vec<String> = Vec::new();
    let mut counts: Vec<usize> = Vec::new();
    let mut names: Vec<String> = Vec::new();
    let mut i: usize = 0;
    while i < requests.len()
        invariant
            reqs == requests@,
            2 * reqs.len() + 2 < usize::MAX,
            i <= reqs.len(),
            names@.len() == i,
            keys@.len() == counts@.len(),
            forall|q: int|
                0 <= q < i ==> (#[trigger] names@[q])@ == spec_staged_file_name(reqs, q),
            forall|k: int| 0 <= k < keys@.len() ==> #[trigger] counts@[k] <= 2 * i,
            forall|k: int|
                0 <= k < keys@.len() ==> #[trigger] counts@[k] == next_sequence(
                    reqs,
                    i as int,
                    keys@[k]@,
                ),
            forall|b: Seq<char>|
                (forall|k: int| 0 <= k < keys@.len() ==> (#[trigger] keys@[k])@ != b) ==> #[trigger] next_sequence(
                    reqs,
                    i as int,
                    b,
                ) == 0,
            forall|k1: int, k2: int|
                0 <= k1 < k2 < keys@.len() ==> (#[trigger] keys@[k1])@ != (#[trigger] keys@[k2])@,
        decreases reqs.len() - i,
    {
        let r = &requests[i];
        let stem = match &r.file_stem {
            Some(s) => sanitize_file_component(s.as_str()),
            None => sanitize_file_component(r.texture_name.as_str()),
        };
        let ext = match &r.extension {
            Some(e) => concat(".", e.as_str()),
            None => String::new(),
        };
        proof {
            reveal_strlit(".");
            reveal_strlit("");
            assert(ext@ == request_extension(*r));
        }
        let found = find_key(&keys, stem.as_str());
        let current: usize = match found {
            Some(j) => counts[j],
            None => 0,
        };
        assert(stem@ == request_base(*r));
        assert(current == next_sequence(reqs, i as int, stem@));
        let candidate = staged_name_text(stem.as_str(), ext.as_str(), current);
        let (chosen, name) = if clashes_with(r, candidate.as_str()) {
            (current + 1, staged_name_text(stem.as_str(), ext.as_str(), current + 1))
        } else {
            (current, candidate)
        };
        assert(chosen == chosen_sequence(reqs, i as int));
        let ghost old_keys = keys@;
        let ghost old_counts = counts@;
        match found {
            Some(j) => {
                counts.set(j, chosen + 1);
            },
            None => {
                keys.push(stem);
                counts.push(chosen + 1);
            },
        }
        names.push(name);
        proof {
            let base = request_base(reqs[i as int]);
            assert(next_sequence(reqs, i + 1, base) == chosen + 1);
            assert forall|b: Seq<char>| b != base implies next_sequence(reqs, i + 1, b)
                == next_sequence(reqs, i as int, b) by {}
            assert forall|k: int| 0 <= k < keys@.len() implies #[trigger] counts@[k] == next_sequence(
                reqs,
                i + 1,
                keys@[k]@,
            ) by {
                if k < old_keys.len() {
                    assert(keys@[k] == old_keys[k]);
                }
            }
            assert forall|b: Seq<char>|
                (forall|k: int| 0 <= k < keys@.len() ==> (#[trigger] keys@[k])@ != b) implies #[trigger] next_sequence(
                reqs,
                i + 1,
                b,
            ) == 0 by {
                if found is Some {
                    let j = found->0 as int;
                    assert(keys@[j]@ != b);
                } else {
                    assert(keys@[old_keys.len() as int]@ != b);
                }
                assert forall|k: int| 0 <= k < old_keys.len() implies (#[trigger] old_keys[k])@ != b by {
                    assert(keys@[k] == old_keys[k]);
                }
                assert(b != base);
                assert(next_sequence(reqs, i as int, b) == 0);
                assert(next_sequence(reqs, i + 1, b) == next_sequence(reqs, i as int, b));
            }
            assert forall|k: int| 0 <= k < keys@.len() implies #[trigger] counts@[k] <= 2 * (i + 1) by {
                if k < old_keys.len() && !(found matches Some(j) && j == k) {
                    assert(counts@[k] == old_counts[k]);
                }
            }
            assert forall|q: int| 0 <= q < i + 1 implies (#[trigger] names@[q])@ == spec_staged_file_name(
                reqs,
                q,
            ) by {}
        }
        i = i + 1;
    }
    names
}

/// Different candidate numbers give different names.
pub proof fn lemma_staged_name_injective(base: Seq<char>, ext: Seq<char>, a: nat, b: nat)
    requires
        a != b,
    ensures
        staged_name(base, ext, a) != staged_name(base, ext, b),
{
    lemma_decimal_len(a);
    lemma_decimal_len(b);
    reveal_strlit("-");
    let na = staged_name(base, ext, a);
    let nb = staged_name(base, ext, b);
    assert("-"@.len() == 1);
    if na == nb {
        if a == 0 {
            assert(nb.len() == base.len() + 1 + decimal(b).len() + ext.len());
        } else if b == 0 {
            assert(na.len() == base.len() + 1 + decimal(a).len() + ext.len());
        } else {
            assert(na.len() == base.len() + 1 + decimal(a).len() + ext.len());
            assert(nb.len() == base.len() + 1 + decimal(b).len() + ext.len());
            let start: int = base.len() as int + 1;
            assert(na.subrange(start, start + decimal(a).len()) =~= decimal(a));
            assert(nb.subrange(start, start + decimal(b).len()) =~= decimal(b));
            lemma_decimal_injective(a, b);
        }
    }
}

/// The candidate numbers that a stem has handed out only grow.
proof fn lemma_next_sequence_grows(reqs: Seq<StagingRequest>, i: int, k: int, base: Seq<char>)
    requires
        0 <= i <= k <= reqs.len(),
    ensures
        next_sequence(reqs, i, base) <= next_sequence(reqs, k, base),
    decreases k - i,
{
    if i < k {
        lemma_next_sequence_grows(reqs, i, k - 1, base);
        if request_base(reqs[k - 1]) == base {
            assert(chosen_sequence(reqs, k - 1) >= next_sequence(reqs, k - 1, base));
        }
    }
}

/// No image is staged onto its own source file.
pub proof fn lemma_staged_name_avoids_source(reqs: Seq<StagingRequest>, i: int)
    requires
        0 <= i < reqs.len(),
    ensures
        !clashes(reqs[i], spec_staged_file_name(reqs, i)),
{
    let r = reqs[i];
    let s = next_sequence(reqs, i, request_base(r));
    lemma_staged_name_injective(request_base(r), request_extension(r), s, s + 1);
}

/// Two images with the same stem and extension are staged under different
/// names.
pub proof fn lemma_same_stem_staged_apart(reqs: Seq<StagingRequest>, j: int, i: int)
    requires
        0 <= j < i < reqs.len(),
        request_base(reqs[j]) == request_base(reqs[i]),
        request_extension(reqs[j]) == request_extension(reqs[i]),
    ensures
        spec_staged_file_name(reqs, j) != spec_staged_file_name(reqs, i),
{
    let base = request_base(reqs[i]);
    lemma_next_sequence_grows(reqs, j + 1, i, base);
    assert(next_sequence(reqs, j + 1, base) == chosen_sequence(reqs, j) + 1);
    lemma_staged_name_injective(
        base,
        request_extension(reqs[i]),
        chosen_sequence(reqs, j),
        chosen_sequence(reqs, i),
    );
}

} // verus!
