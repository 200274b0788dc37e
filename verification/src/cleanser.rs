//! The stateful cleanser: configuration plus accumulated dedup state, fed
//! one line at a time or a batch of lines at a time.
//!
//! Every mutation is pinned to the model of [`crate::model`]: feeding one
//! line effects exactly [`step`], feeding a batch exactly [`run`]. Reading
//! a source line by line and persisting the accepted lines are left to the
//! caller, which keeps memory per fed line bounded and this type free of
//! I/O.

use crate::hashing::hash_key;
use crate::matcher::build_matcher;
use crate::matcher::matcher_builds;
use crate::matcher::matcher_is_match;
use crate::matcher::matcher_patterns;
use crate::matcher::matcher_patterns_len;
use crate::model::accepts;
use crate::model::init_model;
use crate::model::lemma_run_frame;
use crate::model::lemma_run_snoc;
use crate::model::lemma_step_inv;
use crate::model::model_inv;
use crate::model::run;
use crate::model::step;
use crate::model::Model;
use crate::text::lowercase;
use crate::text::normalize_line;
use aho_corasick::AhoCorasick;
use std::collections::HashSet;
use vstd::prelude::*;
use vstd::string::StrSliceExecFns;

verus! {

broadcast use vstd::std_specs::hash::group_hash_axioms;

/// The default minimum character count of the matching key.
pub const DEFAULT_MIN_LENGTH: usize = 20;

/// Construction failed: the keyword patterns could not be compiled into a
/// multi-pattern matcher. Carries the underlying cause's message.
#[derive(Debug)]
pub struct ConfigurationError {
    pub message: String,
}

/// The keyword patterns a cleanser is configured with: the given ones, or
/// none at all when the caller gives none. Omitting the keywords opts out
/// of keyword filtering entirely; there is deliberately no built-in
/// blocklist.
pub open spec fn spec_keywords(toxic_keywords: Option<Vec<String>>) -> Seq<Seq<char>> {
    match toxic_keywords {
        Some(v) => v.deep_view(),
        None => Seq::empty(),
    }
}

/// A stateful line cleanser. Constructed once with a length threshold and
/// disallowed keywords; mutated by every line fed to it; never forgets a
/// seen key for its whole lifetime.
pub struct DataCleanser {
    min_length: usize,
    matcher: AhoCorasick,
    seen: HashSet<u64>,
    cleaned: Vec<String>,
}

impl DataCleanser {
    /// The session state this cleanser is in.
    pub closed spec fn model(self) -> Model {
        Model {
            min_length: self.min_length as nat,
            patterns: matcher_patterns(self.matcher),
            seen: self.seen@,
            lines: self.cleaned.deep_view(),
        }
    }

    /// The cleanser's state satisfies the session invariant; established at
    /// construction and preserved by every operation.
    pub closed spec fn wf(self) -> bool {
        model_inv(self.model())
    }

    /// Creates a cleanser with the given minimum key length and disallowed
    /// keywords (`None` opts out of keyword filtering). Fails, with a
    /// `ConfigurationError` and no cleanser created, exactly when the
    /// keyword patterns cannot be compiled into a matcher; configuration is
    /// never rejected later than construction.
    pub fn new(min_length: usize, toxic_keywords: Option<Vec<String>>) -> (r: Result<
        DataCleanser,
        ConfigurationError,
    >)
        ensures
            r is Ok <==> matcher_builds(spec_keywords(toxic_keywords)),
            r matches Ok(c) ==> c.wf() && c.model() == init_model(
                min_length as nat,
                spec_keywords(toxic_keywords),
            ),
    {
        let ghost keywords = spec_keywords(toxic_keywords);
        let patterns: Vec<String> = match toxic_keywords {
            Some(v) => v,
            None => Vec::new(),
        };
        proof {
            assert(patterns.deep_view() =~= keywords);
        }
        match build_matcher(&patterns) {
            Ok(matcher) => {
                let c = DataCleanser {
                    min_length,
                    matcher,
                    seen: HashSet::new(),
                    cleaned: Vec::new(),
                };
                proof {
                    assert(c.model().lines =~= Seq::<Seq<char>>::empty());
                    assert(c.model() =~= init_model(
                        min_length as nat,
                        spec_keywords(toxic_keywords),
                    ));
                }
                Ok(c)
            },
            Err(message) => Err(ConfigurationError { message }),
        }
    }

    /// Feeds one raw line: normalizes it, drops it silently if its key is
    /// shorter than the minimum, contains a disallowed keyword, or was seen
    /// before, and otherwise stores its candidate output. Returns whether
    /// the line was accepted. The state changes exactly as one model step.
    pub fn process_line(&mut self, line: &str) -> (accepted: bool)
        requires
            old(self).wf(),
        ensures
            final(self).wf(),
            final(self).model() == step(old(self).model(), line@),
            accepted == accepts(old(self).model(), line@),
    {
        proof {
            lemma_step_inv(old(self).model(), line@);
        }
        let candidate = normalize_line(line);
        let key = lowercase(candidate.as_str());
        if key.as_str().unicode_len() < self.min_length {
            return false;
        }
        if matcher_patterns_len(&self.matcher) > 0 && matcher_is_match(&self.matcher, key.as_str())
        {
            return false;
        }
        let h = hash_key(key.as_str());
        let ghost cand_view = candidate@;
        if self.seen.insert(h) {
            self.cleaned.push(candidate);
            proof {
                assert(self.cleaned.deep_view() =~= old(self).cleaned.deep_view().push(cand_view));
                assert(self.model() =~= step(old(self).model(), line@));
            }
            true
        } else {
            proof {
                assert(old(self).seen@.insert(h) =~= old(self).seen@);
                assert(self.model() =~= old(self).model());
            }
            false
        }
    }

    /// Feeds a batch of raw lines, strictly in order, and returns how many
    /// of them were accepted by this call alone. The state changes exactly
    /// as a model run over the batch.
    #[verifier::loop_isolation(false)]
    pub fn process_lines(&mut self, lines: &Vec<String>) -> (n: usize)
        requires
            old(self).wf(),
        ensures
            final(self).wf(),
            final(self).model() == run(old(self).model(), lines.deep_view()),
            n == final(self).model().lines.len() - old(self).model().lines.len(),
    {
        let ghost m0 = self.model();
        let before = self.cleaned.len();
        let mut i: usize = 0;
        while i < lines.len()
            invariant
                i <= lines.len(),
                self.wf(),
                self.model() == run(m0, lines.deep_view().take(i as int)),
            decreases lines.len() - i,
        {
            let ghost pre = self.model();
            let _ = self.process_line(lines[i].as_str());
            proof {
                lemma_run_snoc(m0, lines.deep_view().take(i as int), lines.deep_view()[i as int]);
                assert(lines.deep_view().take(i + 1) =~= lines.deep_view().take(i as int).push(
                    lines.deep_view()[i as int],
                ));
            }
            i += 1;
        }
        proof {
            assert(lines.deep_view().take(lines.len() as int) =~= lines.deep_view());
            lemma_run_frame(m0, lines.deep_view());
        }
        self.cleaned.len() - before
    }

    /// The number of lines accepted so far, across every call; equal to the
    /// number of distinct keys seen and accepted.
    pub fn count(&self) -> (n: usize)
        requires
            self.wf(),
        ensures
            n == self.model().lines.len(),
            n == self.model().seen.len(),
    {
        self.cleaned.len()
    }

    /// The accepted candidates, in first-seen order: what persisting the
    /// session writes out, one per line.
    pub fn cleaned_lines(&self) -> (r: &Vec<String>)
        ensures
            r.deep_view() == self.model().lines,
    {
        &self.cleaned
    }

    /// The configured minimum character count of the matching key.
    pub fn min_length(&self) -> (n: usize)
        ensures
            n == self.model().min_length,
    {
        self.min_length
    }
}

} // verus!
