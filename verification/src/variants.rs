//! Expansion of a vanity suffix into its digit-for-letter variants.
//!
//! A suffix such as `os` may also be accepted when some of its letters are
//! written as the digit that resembles them (`0s`, `o5`, `05`). This module
//! defines which spellings count as a variant, in which order they are
//! listed, and proves that the listing is complete and free of duplicates.

use vstd::prelude::*;

verus! {

/// The digit that may be written in place of `c`, if there is one.
pub open spec fn substitute(c: char) -> Option<char> {
    if c == 'o' {
        Some('0')
    } else if c == 'i' || c == 'l' {
        Some('1')
    } else if c == 's' {
        Some('5')
    } else if c == 'a' {
        Some('4')
    } else if c == 'e' {
        Some('3')
    } else if c == 'z' {
        Some('2')
    } else {
        None
    }
}

/// The spellings accepted for the character `c`: the character itself,
/// followed by its substitute digit where it has one.
pub open spec fn options(c: char) -> Seq<char> {
    match substitute(c) {
        Some(d) => seq![c, d],
        None => seq![c],
    }
}

/// `candidate` spells `target` with some letters replaced by their digits.
pub open spec fn is_variant(target: Seq<char>, candidate: Seq<char>) -> bool {
    &&& candidate.len() == target.len()
    &&& forall|i: int|
        0 <= i < target.len() ==> (#[trigger] candidate[i] == target[i] || substitute(target[i])
            == Some(candidate[i]))
}

/// The number of characters of `target` that have a substitute digit.
pub open spec fn substitutable_count(target: Seq<char>) -> nat
    decreases target.len(),
{
    if target.len() == 0 {
        0
    } else {
        substitutable_count(target.drop_last()) + if substitute(target.last()) is Some {
            1nat
        } else {
            0nat
        }
    }
}

/// The product of the sizes of the option sets of the characters of `target`.
pub open spec fn variant_count(target: Seq<char>) -> nat
    decreases target.len(),
{
    if target.len() == 0 {
        1
    } else {
        variant_count(target.drop_last()) * options(target.last()).len()
    }
}

/// Two to the power `n`.
pub open spec fn pow2(n: nat) -> nat
    decreases n,
{
    if n == 0 {
        1
    } else {
        2 * pow2((n - 1) as nat)
    }
}

/// Entry `k` of the list of every prefix followed by every option: the
/// prefix changes after each round of the options.
pub open spec fn cell(prefixes: Seq<Seq<char>>, opts: Seq<char>, k: int) -> Seq<char> {
    prefixes[k / (opts.len() as int)].push(opts[k % (opts.len() as int)])
}

/// Every prefix followed by every option: the prefixes in order, and for
/// each prefix the options in order.
pub open spec fn extend_all(prefixes: Seq<Seq<char>>, opts: Seq<char>) -> Seq<Seq<char>> {
    Seq::new(prefixes.len() * opts.len(), |k: int| cell(prefixes, opts, k))
}

/// All variants of `target`, the first character varying slowest and the
/// last one fastest.
pub open spec fn variants_of(target: Seq<char>) -> Seq<Seq<char>>
    decreases target.len(),
{
    if target.len() == 0 {
        seq![Seq::<char>::empty()]
    } else {
        extend_all(variants_of(target.drop_last()), options(target.last()))
    }
}

/// The texts of a list of strings.
pub open spec fn texts(strings: Seq<String>) -> Seq<Seq<char>> {
    Seq::new(strings.len(), |i: int| strings[i]@)
}

/// The lower-case form of a text, as `str::to_lowercase` computes it from
/// the Unicode case tables.
pub uninterp spec fn lowercase_of(text: Seq<char>) -> Seq<char>;

/// `str::to_lowercase` returns the lower-case form of the text; it depends
/// on the text alone.
pub assume_specification[ str::to_lowercase ](text: &str) -> (lowered: String)
    ensures
        lowered@ == lowercase_of(text@),
;

/// `String::push` appends one character to the text.
pub assume_specification[ String::push ](text: &mut String, c: char)
    ensures
        final(text)@ == old(text)@.push(c),
;

/// Lists every variant of the lower-case form of `target`.
///
/// The target is put in lower case first, so that the result does not depend
/// on how the caller capitalised it. The variants are those of
/// `expand_variants`, in the same order.
pub fn generate_variants(target: &str) -> (variants: Vec<String>)
    ensures
        texts(variants@) == variants_of(lowercase_of(target@)),
        variants.len() == variant_count(lowercase_of(target@)),
        forall|candidate: Seq<char>|
            texts(variants@).contains(candidate) <==> is_variant(
                lowercase_of(target@),
                candidate,
            ),
        texts(variants@).no_duplicates(),
{
    let lowered = target.to_lowercase();
    expand_variants(lowered.as_str())
}

/// Lists every variant of a suffix that is already in lower case.
///
/// The result holds the suffix spelled in every way that `is_variant`
/// accepts, each once, in the order of `variants_of`.
pub fn expand_variants(lowered: &str) -> (variants: Vec<String>)
    ensures
        texts(variants@) == variants_of(lowered@),
        variants.len() == variant_count(lowered@),
        forall|candidate: Seq<char>|
            texts(variants@).contains(candidate) <==> is_variant(lowered@, candidate),
        texts(variants@).no_duplicates(),
{
    let mut variants: Vec<String> = Vec::new();
    variants.push(String::new());
    assert(texts(variants@) =~= variants_of(Seq::<char>::empty()));
    for ch in it: lowered.chars()
        invariant
            it.seq() == lowered@,
            texts(variants@) == variants_of(lowered@.take(it.index())),
    {
        let opts = char_options(ch);
        proof {
            let next = lowered@.take(it.index() + 1);
            assert(next.drop_last() =~= lowered@.take(it.index()));
            assert(next.last() == ch);
        }
        variants = extend_each(&variants, &opts);
    }
    proof {
        assert(lowered@.take(lowered@.len() as int) =~= lowered@);
        lemma_variants_len(lowered@);
        lemma_variants_complete(lowered@);
        lemma_variants_distinct(lowered@);
    }
    variants
}

/// Appends every option to every prefix.
fn extend_each(prefixes: &Vec<String>, opts: &Vec<char>) -> (extended: Vec<String>)
    requires
        opts.len() > 0,
    ensures
        texts(extended@) == extend_all(texts(prefixes@), opts@),
{
    let mut extended: Vec<String> = Vec::new();
    let n: usize = opts.len();
    let mut vi: usize = 0;
    while vi < prefixes.len()
        invariant
            n == opts.len(),
            n > 0,
            vi <= prefixes.len(),
            extended.len() == vi * n,
            forall|k: int|
                0 <= k < extended.len() ==> (#[trigger] extended[k])@ == cell(
                    texts(prefixes@),
                    opts@,
                    k,
                ),
        decreases prefixes.len() - vi,
    {
        let mut oi: usize = 0;
        while oi < n
            invariant
                n == opts.len(),
                vi < prefixes.len(),
                oi <= n,
                extended.len() == vi * n + oi,
                forall|k: int|
                    0 <= k < extended.len() ==> (#[trigger] extended[k])@ == cell(
                        texts(prefixes@),
                        opts@,
                        k,
                    ),
            decreases n - oi,
        {
            let mut spelled = prefixes[vi].clone();
            spelled.push(opts[oi]);
            proof {
                lemma_grid_position(vi as int, oi as int, n as int);
            }
            extended.push(spelled);
            oi += 1;
        }
        proof {
            assert(vi * n + n == (vi + 1) * n) by (nonlinear_arith);
        }
        vi += 1;
    }
    proof {
        let built = texts(extended@);
        let wanted = extend_all(texts(prefixes@), opts@);
        assert forall|k: int| 0 <= k < built.len() implies #[trigger] built[k] == wanted[k] by {
            lemma_grid_cell_in_range(k, prefixes.len() as int, n as int);
        }
        assert(built =~= wanted);
    }
    extended
}

/// The spellings accepted for `c`, as a vector.
fn char_options(c: char) -> (opts: Vec<char>)
    ensures
        opts@ == options(c),
{
    let mut opts: Vec<char> = Vec::new();
    opts.push(c);
    if c == 'o' {
        opts.push('0');
    } else if c == 'i' || c == 'l' {
        opts.push('1');
    } else if c == 's' {
        opts.push('5');
    } else if c == 'a' {
        opts.push('4');
    } else if c == 'e' {
        opts.push('3');
    } else if c == 'z' {
        opts.push('2');
    }
    assert(opts@ =~= options(c));
    opts
}

/// The listing has one entry for each choice of spellings: its length is the
/// product of the sizes of the option sets of the characters of `target`.
pub proof fn lemma_variants_len(target: Seq<char>)
    ensures
        variants_of(target).len() == variant_count(target),
    decreases target.len(),
{
    if target.len() > 0 {
        lemma_variants_len(target.drop_last());
    }
}

/// A target with `k` characters that have a substitute digit, and any number
/// of characters that have none, has two to the power `k` variants.
pub proof fn lemma_variant_count_is_power_of_two(target: Seq<char>)
    ensures
        variant_count(target) == pow2(substitutable_count(target)),
    decreases target.len(),
{
    if target.len() > 0 {
        lemma_variant_count_is_power_of_two(target.drop_last());
        let rest = variant_count(target.drop_last());
        if substitute(target.last()) is Some {
            assert(rest * 2 == 2 * rest) by (nonlinear_arith);
        } else {
            assert(rest * 1 == rest) by (nonlinear_arith);
        }
    }
}

/// The empty target has exactly one variant, the empty text.
pub proof fn lemma_variants_of_empty()
    ensures
        variants_of(Seq::<char>::empty()) == seq![Seq::<char>::empty()],
        variant_count(Seq::<char>::empty()) == 1,
{
}

/// The listing is complete and sound: a text occurs in it exactly when it
/// spells the target with some letters replaced by their digits.
pub proof fn lemma_variants_complete(target: Seq<char>)
    ensures
        forall|candidate: Seq<char>|
            variants_of(target).contains(candidate) <==> is_variant(target, candidate),
    decreases target.len(),
{
    let listed = variants_of(target);
    if target.len() == 0 {
        assert forall|candidate: Seq<char>| listed.contains(candidate) <==> is_variant(
            target,
            candidate,
        ) by {
            if is_variant(target, candidate) {
                assert(candidate =~= Seq::<char>::empty());
                assert(listed[0] == candidate);
            }
        }
    } else {
        let head = target.drop_last();
        let ch = target.last();
        let heads = variants_of(head);
        let opts = options(ch);
        let n = opts.len() as int;
        lemma_variants_complete(head);
        assert forall|candidate: Seq<char>| listed.contains(candidate) <==> is_variant(
            target,
            candidate,
        ) by {
            if listed.contains(candidate) {
                let k = choose|k: int| 0 <= k < listed.len() && listed[k] == candidate;
                lemma_grid_cell_in_range(k, heads.len() as int, n);
                let a = k / n;
                let b = k % n;
                assert(heads.contains(heads[a]));
                assert(is_variant(head, heads[a]));
                assert(candidate == heads[a].push(opts[b]));
                assert forall|i: int| 0 <= i < target.len() implies (#[trigger] candidate[i]
                    == target[i] || substitute(target[i]) == Some(candidate[i])) by {
                    if i < head.len() {
                        assert(candidate[i] == heads[a][i]);
                        assert(target[i] == head[i]);
                    }
                }
            }
            if is_variant(target, candidate) {
                let front = candidate.drop_last();
                assert forall|i: int| 0 <= i < head.len() implies (#[trigger] front[i] == head[i]
                    || substitute(head[i]) == Some(front[i])) by {
                    assert(candidate[i] == target[i] || substitute(target[i]) == Some(
                        candidate[i],
                    ));
                }
                assert(is_variant(head, front));
                assert(heads.contains(front));
                let a = choose|a: int| 0 <= a < heads.len() && heads[a] == front;
                let last = candidate[candidate.len() - 1];
                assert(last == ch || substitute(ch) == Some(last));
                let b: int = if last == ch {
                    0
                } else {
                    1
                };
                assert(0 <= b < n && opts[b] == last);
                lemma_grid_position(a, b, n);
                let k = a * n + b;
                assert(0 <= k < heads.len() * n) by (nonlinear_arith)
                    requires
                        0 <= a < heads.len(),
                        0 <= b < n,
                        k == a * n + b,
                ;
                assert(listed[k] =~= candidate);
            }
        }
    }
}

/// No variant is listed twice.
pub proof fn lemma_variants_distinct(target: Seq<char>)
    ensures
        variants_of(target).no_duplicates(),
    decreases target.len(),
{
    let listed = variants_of(target);
    if target.len() > 0 {
        let heads = variants_of(target.drop_last());
        let opts = options(target.last());
        let n = opts.len() as int;
        lemma_variants_distinct(target.drop_last());
        assert forall|i: int, j: int|
            0 <= i < listed.len() && 0 <= j < listed.len() && i != j implies listed[i]
            != listed[j] by {
            lemma_grid_cell_in_range(i, heads.len() as int, n);
            lemma_grid_cell_in_range(j, heads.len() as int, n);
            vstd::arithmetic::div_mod::lemma_fundamental_div_mod(i, n);
            vstd::arithmetic::div_mod::lemma_fundamental_div_mod(j, n);
            let left = heads[i / n].push(opts[i % n]);
            let right = heads[j / n].push(opts[j % n]);
            if i / n != j / n {
                assert(left.drop_last() =~= heads[i / n]);
                assert(right.drop_last() =~= heads[j / n]);
            } else {
                assert(i % n != j % n);
                assert(left.last() == opts[i % n]);
                assert(right.last() == opts[j % n]);
            }
        }
    }
}

/// Position `vi * n + oi` of a grid with rows of `n` cells is cell `oi` of
/// row `vi`.
proof fn lemma_grid_position(vi: int, oi: int, n: int)
    requires
        0 <= vi,
        0 <= oi < n,
    ensures
        (vi * n + oi) / n == vi,
        (vi * n + oi) % n == oi,
{
    vstd::arithmetic::div_mod::lemma_fundamental_div_mod_converse(vi * n + oi, n, vi, oi);
}

/// Cell `k` of a grid of `rows` rows of `n` cells lies in a row and a
/// column of the grid.
proof fn lemma_grid_cell_in_range(k: int, rows: int, n: int)
    requires
        0 <= k < rows * n,
        0 < n,
    ensures
        0 <= k / n < rows,
        0 <= k % n < n,
{
    vstd::arithmetic::div_mod::lemma_fundamental_div_mod(k, n);
    vstd::arithmetic::div_mod::lemma_mod_pos_bound(k, n);
    vstd::arithmetic::div_mod::lemma_div_pos_is_pos(k, n);
    if k / n >= rows {
        assert(n * (k / n) >= n * rows) by (nonlinear_arith)
            requires
                k / n >= rows,
                n > 0,
        ;
        assert(rows * n == n * rows) by (nonlinear_arith);
    }
}

} // verus!
