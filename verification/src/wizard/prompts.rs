//! Interactive answers for the wizard, behind a trait: the terminal
//! prompter lives with the program; here are the one that accepts every
//! default and the one that replays scripted answers.

use std::collections::VecDeque;
use vstd::prelude::*;

verus! {

#[derive(Debug)]
pub enum PromptError {
    Cancelled,
    OutOfAnswers,
    Io(String),
}

/// A source of answers to yes/no questions and choices among options.
pub trait Prompter {
    fn confirm(&mut self, prompt: &str, default: bool) -> Result<bool, PromptError>;

    fn select(&mut self, prompt: &str, options: &[String]) -> Result<usize, PromptError>;
}

/// Accepts everything: yes to every question, the first option of every
/// choice.
pub struct AutoAccept;

impl Prompter for AutoAccept {
    fn confirm(&mut self, _prompt: &str, _default: bool) -> (r: Result<bool, PromptError>)
        ensures
            r matches Ok(true),
    {
        Ok(true)
    }

    fn select(&mut self, _prompt: &str, _options: &[String]) -> (r: Result<usize, PromptError>)
        ensures
            r matches Ok(0),
    {
        Ok(0)
    }
}

/// Replays fixed answers in order, then fails with `OutOfAnswers`.
pub struct ScriptedPrompter {
    confirms: VecDeque<bool>,
    selects: VecDeque<usize>,
}

impl ScriptedPrompter {
    /// The answers still to give to `confirm`, in order.
    pub closed spec fn confirms_left(&self) -> Seq<bool> {
        self.confirms@
    }

    /// The answers still to give to `select`, in order.
    pub closed spec fn selects_left(&self) -> Seq<usize> {
        self.selects@
    }

    pub fn new(confirms: Vec<bool>, selects: Vec<usize>) -> (r: Self)
        ensures
            r.confirms_left() == confirms@,
            r.selects_left() == selects@,
    {
        let mut c: VecDeque<bool> = VecDeque::new();
        let mut i: usize = 0;
        while i < confirms.len()
            invariant
                i <= confirms@.len(),
                c@ == confirms@.take(i as int),
            decreases confirms@.len() - i,
        {
            c.push_back(confirms[i]);
            i = i + 1;
            assert(c@ =~= confirms@.take(i as int));
        }
        assert(confirms@.take(confirms@.len() as int) =~= confirms@);
        let mut s: VecDeque<usize> = VecDeque::new();
        let mut j: usize = 0;
        while j < selects.len()
            invariant
                j <= selects@.len(),
                s@ == selects@.take(j as int),
            decreases selects@.len() - j,
        {
            s.push_back(selects[j]);
            j = j + 1;
            assert(s@ =~= selects@.take(j as int));
        }
        assert(selects@.take(selects@.len() as int) =~= selects@);
        ScriptedPrompter { confirms: c, selects: s }
    }
}

impl Prompter for ScriptedPrompter {
    fn confirm(&mut self, _prompt: &str, _default: bool) -> (r: Result<bool, PromptError>)
        ensures
            final(self).selects_left() == old(self).selects_left(),
            old(self).confirms_left().len() == 0 ==> (r matches Err(PromptError::OutOfAnswers)
                && final(self).confirms_left() == old(self).confirms_left()),
            old(self).confirms_left().len() > 0 ==> r == Ok::<bool, PromptError>(old(self).confirms_left()[0])
                && final(self).confirms_left() == old(self).confirms_left().drop_first(),
    {
        match self.confirms.pop_front() {
            Some(b) => {
                assert(self.confirms@ =~= old(self).confirms@.drop_first());
                Ok(b)
            },
            None => Err(PromptError::OutOfAnswers),
        }
    }

    fn select(&mut self, _prompt: &str, _options: &[String]) -> (r: Result<usize, PromptError>)
        ensures
            final(self).confirms_left() == old(self).confirms_left(),
            old(self).selects_left().len() == 0 ==> (r matches Err(PromptError::OutOfAnswers)
                && final(self).selects_left() == old(self).selects_left()),
            old(self).selects_left().len() > 0 ==> r == Ok::<usize, PromptError>(old(self).selects_left()[0])
                && final(self).selects_left() == old(self).selects_left().drop_first(),
    {
        match self.selects.pop_front() {
            Some(n) => {
                assert(self.selects@ =~= old(self).selects@.drop_first());
                Ok(n)
            },
            None => Err(PromptError::OutOfAnswers),
        }
    }
}

} // verus!
