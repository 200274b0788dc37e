//! The mathematical model of a cleansing session, and the laws proved of it.
//!
//! A session is a [`Model`]: the immutable configuration (minimum key
//! length, keyword patterns) together with the mutable state (the set of
//! seen dedup identifiers and the accepted candidates in first-seen order).
//! [`step`] is the effect of feeding one raw line, [`run`] of feeding the
//! lines of a whole source in order. `DataCleanser`'s contracts state that
//! its executable state evolves exactly as `step` and `run` say, so every
//! law proved here of `run` holds of the executable cleanser as well.

use crate::hashing::key_hash;
use crate::matcher::matches_any;
use crate::text::candidate_spec;
use crate::text::key_spec;
use crate::text::lower_of;
use vstd::prelude::*;

verus! {

/// The state of a cleansing session.
#[verifier::ext_equal]
pub ghost struct Model {
    /// Minimum character count of the matching key; shorter lines are
    /// rejected. Immutable after construction.
    pub min_length: nat,
    /// The disallowed keywords; a line whose key contains any of them as a
    /// substring is rejected. Immutable after construction.
    pub patterns: Seq<Seq<char>>,
    /// Dedup identifiers of every key accepted so far. Grows monotonically.
    pub seen: Set<u64>,
    /// The accepted candidates, in first-seen order. Grows monotonically.
    pub lines: Seq<Seq<char>>,
}

/// The state of a freshly constructed session: nothing seen, nothing stored.
pub open spec fn init_model(min_length: nat, patterns: Seq<Seq<char>>) -> Model {
    Model { min_length, patterns, seen: Set::empty(), lines: Seq::empty() }
}

/// The dedup identifier of a stored candidate: the hash of its lowercased
/// form.
pub open spec fn candidate_id(c: Seq<char>) -> u64 {
    key_hash(lower_of(c))
}

/// The dedup identifier of a raw line: the hash of its matching key.
pub open spec fn line_id(l: Seq<char>) -> u64 {
    candidate_id(candidate_spec(l))
}

/// The line's key is long enough and contains no disallowed keyword.
pub open spec fn passes_filters(m: Model, l: Seq<char>) -> bool {
    &&& key_spec(l).len() >= m.min_length
    &&& !matches_any(m.patterns, key_spec(l))
}

/// The line's identifier has not been seen in this session.
pub open spec fn is_new(m: Model, l: Seq<char>) -> bool {
    !m.seen.contains(line_id(l))
}

/// The session accepts the line: it passes both filters and is no duplicate.
pub open spec fn accepts(m: Model, l: Seq<char>) -> bool {
    passes_filters(m, l) && is_new(m, l)
}

/// The line is spent for this session: feeding it (again) changes nothing,
/// either because it fails a filter or because its identifier was seen.
pub open spec fn settled(m: Model, l: Seq<char>) -> bool {
    !passes_filters(m, l) || m.seen.contains(line_id(l))
}

/// The effect of feeding one raw line: an accepted line's identifier is
/// recorded and its candidate appended; a rejected line changes nothing.
pub open spec fn step(m: Model, l: Seq<char>) -> Model {
    if accepts(m, l) {
        Model { seen: m.seen.insert(line_id(l)), lines: m.lines.push(candidate_spec(l)), ..m }
    } else {
        m
    }
}

/// The effect of feeding the raw lines of a source, strictly in order.
pub open spec fn run(m: Model, ls: Seq<Seq<char>>) -> Model
    decreases ls.len(),
{
    if ls.len() == 0 {
        m
    } else {
        run(step(m, ls[0]), ls.drop_first())
    }
}

/// A run over one more line is a step after the shorter run: the unrolling
/// that a line-by-line loop takes.
pub proof fn lemma_run_snoc(m: Model, ls: Seq<Seq<char>>, l: Seq<char>)
    ensures
        run(m, ls.push(l)) == step(run(m, ls), l),
    decreases ls.len(),
{
    if ls.len() == 0 {
        assert(ls.push(l)[0] == l);
        assert(ls.push(l).drop_first() =~= Seq::<Seq<char>>::empty());
        assert(run(step(m, l), Seq::<Seq<char>>::empty()) == step(m, l));
    } else {
        assert(ls.push(l)[0] == ls[0]);
        assert(ls.push(l).drop_first() =~= ls.drop_first().push(l));
        lemma_run_snoc(step(m, ls[0]), ls.drop_first(), l);
    }
}

/// Session invariant: the seen set is finite with exactly one member per
/// stored line; stored lines have pairwise distinct identifiers, each of
/// which the seen set holds.
pub open spec fn model_inv(m: Model) -> bool {
    &&& m.seen.finite()
    &&& m.seen.len() == m.lines.len()
    &&& forall|i: int| 0 <= i < m.lines.len() ==> m.seen.contains(candidate_id(#[trigger] m.lines[i]))
    &&& forall|i: int, j: int|
        0 <= i < j < m.lines.len() ==> candidate_id(m.lines[i]) != candidate_id(m.lines[j])
}

/// One step keeps the configuration, grows the state monotonically, and
/// does exactly what acceptance dictates.
pub proof fn lemma_step_frame(m: Model, l: Seq<char>)
    ensures
        step(m, l).min_length == m.min_length,
        step(m, l).patterns == m.patterns,
        m.seen.subset_of(step(m, l).seen),
        m.lines.len() <= step(m, l).lines.len(),
        step(m, l).lines.take(m.lines.len() as int) == m.lines,
        !accepts(m, l) ==> step(m, l) == m,
{
    if accepts(m, l) {
        assert(m.lines.push(candidate_spec(l)).take(m.lines.len() as int) =~= m.lines);
    } else {
        assert(m.lines.take(m.lines.len() as int) =~= m.lines);
    }
}

/// A run keeps the configuration and grows the state monotonically; what
/// was stored before stands unchanged at the front.
pub proof fn lemma_run_frame(m: Model, ls: Seq<Seq<char>>)
    ensures
        run(m, ls).min_length == m.min_length,
        run(m, ls).patterns == m.patterns,
        m.seen.subset_of(run(m, ls).seen),
        m.lines.len() <= run(m, ls).lines.len(),
        run(m, ls).lines.take(m.lines.len() as int) == m.lines,
    decreases ls.len(),
{
    if ls.len() == 0 {
        assert(m.lines.take(m.lines.len() as int) =~= m.lines);
    } else {
        let m1 = step(m, ls[0]);
        lemma_step_frame(m, ls[0]);
        lemma_run_frame(m1, ls.drop_first());
        let r = run(m, ls);
        assert(r == run(m1, ls.drop_first()));
        assert forall|i: int| 0 <= i < m.lines.len() implies r.lines[i] == m.lines[i] by {
            assert(r.lines.take(m1.lines.len() as int)[i] == r.lines[i]);
            assert(m1.lines.take(m.lines.len() as int)[i] == m1.lines[i]);
        }
        assert(r.lines.take(m.lines.len() as int) =~= m.lines);
    }
}

/// After a line is fed, it is settled.
pub proof fn lemma_step_settles_self(m: Model, l: Seq<char>)
    ensures
        settled(step(m, l), l),
{
}

/// A settled line stays settled whatever else is fed.
pub proof fn lemma_step_keeps_settled(m: Model, l: Seq<char>, x: Seq<char>)
    requires
        settled(m, x),
    ensures
        settled(step(m, l), x),
{
    lemma_step_frame(m, l);
}

/// A settled line stays settled across a whole run.
pub proof fn lemma_run_keeps_settled(m: Model, ls: Seq<Seq<char>>, x: Seq<char>)
    requires
        settled(m, x),
    ensures
        settled(run(m, ls), x),
    decreases ls.len(),
{
    if ls.len() == 0 {
    } else {
        lemma_step_keeps_settled(m, ls[0], x);
        lemma_run_keeps_settled(step(m, ls[0]), ls.drop_first(), x);
    }
}

/// After a run, every line that was fed is settled.
pub proof fn lemma_run_settles_all(m: Model, ls: Seq<Seq<char>>)
    ensures
        forall|i: int| 0 <= i < ls.len() ==> settled(run(m, ls), #[trigger] ls[i]),
    decreases ls.len(),
{
    if ls.len() == 0 {
    } else {
        let m1 = step(m, ls[0]);
        lemma_step_settles_self(m, ls[0]);
        lemma_run_keeps_settled(m1, ls.drop_first(), ls[0]);
        lemma_run_settles_all(m1, ls.drop_first());
        assert forall|i: int| 0 <= i < ls.len() implies settled(run(m, ls), ls[i]) by {
            if i > 0 {
                assert(ls.drop_first()[i - 1] == ls[i]);
            }
        }
    }
}

/// Feeding only settled lines changes nothing.
pub proof fn lemma_run_settled_noop(m: Model, ls: Seq<Seq<char>>)
    requires
        forall|i: int| 0 <= i < ls.len() ==> settled(m, #[trigger] ls[i]),
    ensures
        run(m, ls) == m,
    decreases ls.len(),
{
    if ls.len() == 0 {
    } else {
        assert(settled(m, ls[0]));
        assert(step(m, ls[0]) == m);
        assert forall|i: int| 0 <= i < ls.drop_first().len() implies settled(
            m,
            ls.drop_first()[i],
        ) by {
            assert(ls.drop_first()[i] == ls[i + 1]);
        }
        lemma_run_settled_noop(m, ls.drop_first());
    }
}

/// Law: feeding the same lines a second time accepts nothing new — every
/// line is by then either filtered out or a seen duplicate, so the second
/// run returns the state unchanged.
pub proof fn lemma_process_idempotent(m: Model, ls: Seq<Seq<char>>)
    ensures
        run(run(m, ls), ls) == run(m, ls),
{
    lemma_run_settles_all(m, ls);
    lemma_run_settled_noop(run(m, ls), ls);
}

/// Law: lines that all pass the filters, are all new to the session, and
/// have pairwise distinct identifiers are accepted one and all, and their
/// candidates are appended in exactly the order fed. (Two distinct keys
/// whose 64-bit hashes collide would make the later line a false duplicate;
/// the distinct-identifier premise excludes exactly that.)
pub proof fn lemma_order_preserved(m: Model, ls: Seq<Seq<char>>)
    requires
        forall|i: int| 0 <= i < ls.len() ==> passes_filters(m, #[trigger] ls[i]),
        forall|i: int| 0 <= i < ls.len() ==> !m.seen.contains(line_id(#[trigger] ls[i])),
        forall|i: int, j: int|
            0 <= i < j < ls.len() ==> line_id(ls[i]) != line_id(ls[j]),
    ensures
        run(m, ls).lines == m.lines + ls.map_values(|l: Seq<char>| candidate_spec(l)),
    decreases ls.len(),
{
    if ls.len() == 0 {
        assert(run(m, ls).lines =~= m.lines + ls.map_values(|l: Seq<char>| candidate_spec(l)));
    } else {
        let l0 = ls[0];
        let rest = ls.drop_first();
        assert(accepts(m, l0));
        let m1 = step(m, l0);
        assert forall|i: int| 0 <= i < rest.len() implies passes_filters(m1, #[trigger] rest[i])
            && !m1.seen.contains(line_id(rest[i])) by {
            assert(rest[i] == ls[i + 1]);
        }
        assert forall|i: int, j: int| 0 <= i < j < rest.len() implies line_id(rest[i]) != line_id(
            rest[j],
        ) by {
            assert(rest[i] == ls[i + 1]);
            assert(rest[j] == ls[j + 1]);
        }
        lemma_order_preserved(m1, rest);
        assert(run(m, ls).lines =~= m.lines + ls.map_values(|l: Seq<char>| candidate_spec(l)))
            by {
            let lhs = run(m, ls).lines;
            let rhs = m.lines + ls.map_values(|l: Seq<char>| candidate_spec(l));
            assert(lhs == m1.lines + rest.map_values(|l: Seq<char>| candidate_spec(l)));
            assert forall|k: int| 0 <= k < lhs.len() implies lhs[k] == rhs[k] by {
                if k < m.lines.len() {
                } else if k == m.lines.len() {
                    assert(m1.lines[k] == candidate_spec(l0));
                } else {
                    assert(lhs[k] == rest.map_values(|l: Seq<char>| candidate_spec(l))[k
                        - m1.lines.len()]);
                    assert(rest[k - m1.lines.len()] == ls[k - m.lines.len()]);
                }
            }
        }
    }
}

/// One step preserves the session invariant.
pub proof fn lemma_step_inv(m: Model, l: Seq<char>)
    requires
        model_inv(m),
    ensures
        model_inv(step(m, l)),
{
    if accepts(m, l) {
        let m1 = step(m, l);
        assert forall|i: int| 0 <= i < m1.lines.len() implies m1.seen.contains(candidate_id(
            #[trigger] m1.lines[i],
        )) by {
            if i < m.lines.len() {
                assert(m1.lines[i] == m.lines[i]);
            } else {
                assert(m1.lines[i] == candidate_spec(l));
            }
        }
        assert forall|i: int, j: int| 0 <= i < j < m1.lines.len() implies candidate_id(
            m1.lines[i],
        ) != candidate_id(m1.lines[j]) by {
            if j < m.lines.len() {
            } else {
                assert(m1.lines[j] == candidate_spec(l));
                assert(m1.lines[i] == m.lines[i]);
                assert(m.seen.contains(candidate_id(m.lines[i])));
            }
        }
    }
}

/// A whole run preserves the session invariant.
pub proof fn lemma_run_inv(m: Model, ls: Seq<Seq<char>>)
    requires
        model_inv(m),
    ensures
        model_inv(run(m, ls)),
    decreases ls.len(),
{
    if ls.len() == 0 {
    } else {
        lemma_step_inv(m, ls[0]);
        lemma_run_inv(step(m, ls[0]), ls.drop_first());
    }
}

/// Law: the length filter is an inclusive boundary. A line whose key has
/// exactly the minimum character count is accepted when nothing else trips
/// — the keyword filter passes it and its identifier is new — and a line
/// whose key is even one character shorter is rejected, whatever else
/// holds.
pub proof fn lemma_length_boundary(m: Model, l: Seq<char>)
    ensures
        key_spec(l).len() == m.min_length && !matches_any(m.patterns, key_spec(l)) && is_new(m, l)
            ==> accepts(m, l),
        key_spec(l).len() < m.min_length ==> !accepts(m, l),
{
}

/// Law: two lines with the same matching key are duplicates of each other,
/// and the stored candidate is the first one's — with its original casing,
/// since lowercasing touches only the key, never what is stored.
pub proof fn lemma_same_key_dedup(m: Model, l1: Seq<char>, l2: Seq<char>)
    requires
        key_spec(l1) == key_spec(l2),
        accepts(m, l1),
    ensures
        !accepts(step(m, l1), l2),
        step(m, l1).lines.last() == candidate_spec(l1),
{
}

/// Law: cross-call deduplication. Processing one source and then another
/// leaves the first source's accepted lines in place at the front, keeps
/// the session invariant, and leaves no two stored lines — across both
/// calls — with the same identifier: a line normalized identically in both
/// sources is stored exactly once, by the call that ran first.
pub proof fn lemma_cross_call_dedup(m: Model, first_src: Seq<Seq<char>>, second_src: Seq<Seq<char>>)
    requires
        model_inv(m),
    ensures
        ({
            let m1 = run(m, first_src);
            let m2 = run(m1, second_src);
            &&& model_inv(m2)
            &&& m1.lines.len() <= m2.lines.len()
            &&& m2.lines.take(m1.lines.len() as int) == m1.lines
            &&& forall|i: int, j: int|
                0 <= i < j < m2.lines.len() ==> candidate_id(m2.lines[i]) != candidate_id(
                    m2.lines[j],
                )
        }),
{
    let m1 = run(m, first_src);
    lemma_run_inv(m, first_src);
    lemma_run_inv(m1, second_src);
    lemma_run_frame(m1, second_src);
}

} // verus!
