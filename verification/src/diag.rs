//! Non-short-circuiting accumulation of diagnostics.
//!
//! A [`DiagnosticResult`] carries an ordered list of messages together with a
//! fatal flag. Independent computation stages are merged with
//! [`DiagnosticResult::combine`] (both operands' messages are kept, in
//! order), dependent stages are sequenced with [`DiagnosticResult::and_then`]
//! (a fatal left operand short-circuits). The combination operation forms a
//! monoid with the empty result as identity; the laws are stated and proved
//! below over the abstraction [`DiagView`].

use vstd::prelude::*;

verus! {

/// Abstraction of a diagnostic accumulator: a fatal flag plus the ordered
/// sequence of accumulated messages.
#[verifier::ext_equal]
pub ghost struct DiagView<E> {
    pub fatal: bool,
    pub messages: Seq<E>,
}

impl<E> DiagView<E> {
    /// The identity of `combined`: not fatal, no messages.
    pub open spec fn empty() -> DiagView<E> {
        DiagView { fatal: false, messages: Seq::empty() }
    }

    /// A single non-fatal message.
    pub open spec fn singleton(m: E) -> DiagView<E> {
        DiagView { fatal: false, messages: seq![m] }
    }

    /// Merge of two independent results: messages concatenated in operand
    /// order, fatal iff either operand is fatal.
    pub open spec fn combined(self, other: DiagView<E>) -> DiagView<E> {
        DiagView { fatal: self.fatal || other.fatal, messages: self.messages + other.messages }
    }

    /// The same messages with the fatal flag forced on.
    pub open spec fn failed(self) -> DiagView<E> {
        DiagView { fatal: true, messages: self.messages }
    }

    /// Sequencing of a dependent result: a fatal left operand is returned
    /// unchanged, otherwise the two are combined.
    pub open spec fn and_then(self, other: DiagView<E>) -> DiagView<E> {
        if self.fatal {
            self
        } else {
            self.combined(other)
        }
    }
}

/// Law: the empty result is a right identity of `combined`.
pub proof fn lemma_combine_empty_right<E>(a: DiagView<E>)
    ensures
        a.combined(DiagView::empty()) == a,
{
    assert(a.combined(DiagView::empty()) =~= a);
}

/// Law: the empty result is a left identity of `combined`.
pub proof fn lemma_combine_empty_left<E>(a: DiagView<E>)
    ensures
        DiagView::empty().combined(a) == a,
{
    assert(DiagView::empty().combined(a) =~= a);
}

/// Law: `combined` is associative.
pub proof fn lemma_combine_assoc<E>(a: DiagView<E>, b: DiagView<E>, c: DiagView<E>)
    ensures
        a.combined(b).combined(c) == a.combined(b.combined(c)),
{
    assert(a.combined(b).combined(c) =~= a.combined(b.combined(c)));
}

/// Law: a combination is fatal exactly when one of its operands is, and its
/// messages are the left operand's followed by the right operand's.
pub proof fn lemma_combine_parts<E>(a: DiagView<E>, b: DiagView<E>)
    ensures
        a.combined(b).fatal == (a.fatal || b.fatal),
        a.combined(b).messages == a.messages + b.messages,
{
}

/// Law: sequencing after a failed single message short-circuits, whatever the
/// dependent result would have been: the outcome is fatal and holds only that
/// message.
pub proof fn lemma_and_then_short_circuit<E>(m: E, b: DiagView<E>)
    ensures
        DiagView::singleton(m).failed().and_then(b) == (DiagView { fatal: true, messages: seq![m] }),
{
}

/// An accumulator for warnings and errors found during a resolution run.
///
/// `is_fatal` records whether any error-severity problem was seen; `messages`
/// holds every accumulated message in the order it was reported. Callers
/// branch on the fatal flag only after a whole pipeline stage has run, so one
/// problem never suppresses the discovery of an independent one.
#[derive(Debug, PartialEq)]
#[must_use]
pub struct DiagnosticResult<E> {
    /// Whether an unrecoverable problem was recorded.
    pub is_fatal: bool,
    /// Every accumulated message, oldest first.
    pub messages: Vec<E>,
}

impl<E> View for DiagnosticResult<E> {
    type V = DiagView<E>;

    open spec fn view(&self) -> DiagView<E> {
        DiagView { fatal: self.is_fatal, messages: self.messages@ }
    }
}

/// Concatenates two message lists, the left operand's messages first.
pub fn combine<E>(lhs: Vec<E>, rhs: Vec<E>) -> (r: Vec<E>)
    ensures
        r@ == lhs@ + rhs@,
{
    let mut result = lhs;
    let mut rest = rhs;
    result.append(&mut rest);
    result
}

/// A result holding one non-fatal message.
pub fn tell<E>(msg: E) -> (r: DiagnosticResult<E>)
    ensures
        r@ == DiagView::singleton(msg),
{
    let mut messages: Vec<E> = Vec::new();
    messages.push(msg);
    let r = DiagnosticResult { is_fatal: false, messages };
    proof {
        assert(r@ =~= DiagView::singleton(msg));
    }
    r
}

impl<E> DiagnosticResult<E> {
    /// An empty, non-fatal result: the identity of `combine`.
    pub fn new() -> (r: DiagnosticResult<E>)
        ensures
            r@ == DiagView::<E>::empty(),
    {
        let r = DiagnosticResult { is_fatal: false, messages: Vec::new() };
        proof {
            assert(r@ =~= DiagView::<E>::empty());
        }
        r
    }

    /// Clears all messages and resets the fatal flag.
    pub fn clear(&mut self)
        ensures
            final(self)@ == DiagView::<E>::empty(),
    {
        self.is_fatal = false;
        self.messages.clear();
        proof {
            assert(self@ =~= DiagView::<E>::empty());
        }
    }

    /// The same messages with the fatal flag forced on: marks an otherwise
    /// recoverable unit as fatal for the whole run while letting independent
    /// units still execute.
    pub fn fail(self) -> (r: DiagnosticResult<E>)
        ensures
            r@ == self@.failed(),
    {
        DiagnosticResult { is_fatal: true, messages: self.messages }
    }

    /// Appends one message; the fatal flag is unchanged.
    pub fn tell(&mut self, msg: E)
        ensures
            final(self)@.fatal == old(self)@.fatal,
            final(self)@.messages == old(self)@.messages.push(msg),
    {
        self.messages.push(msg);
    }

    /// Merges another result into this one: its messages are appended in
    /// order, and the accumulator is fatal afterwards iff either operand
    /// was.
    pub fn merge(&mut self, other: DiagnosticResult<E>)
        ensures
            final(self)@ == old(self)@.combined(other@),
    {
        self.is_fatal = self.is_fatal || other.is_fatal;
        let mut rest = other.messages;
        self.messages.append(&mut rest);
    }

    /// Merge of two independent results: messages concatenated in operand
    /// order, fatal iff either operand is fatal.
    pub fn combine(self, other: DiagnosticResult<E>) -> (r: DiagnosticResult<E>)
        ensures
            r@ == self@.combined(other@),
    {
        DiagnosticResult {
            is_fatal: self.is_fatal || other.is_fatal,
            messages: combine(self.messages, other.messages),
        }
    }

    /// Whether any message has been accumulated.
    pub fn has_messages(&self) -> (r: bool)
        ensures
            r == (self@.messages.len() > 0),
    {
        !self.messages.is_empty()
    }

    /// Sequences a dependent stage. A fatal receiver is returned unchanged
    /// and `f` is never evaluated; otherwise `f`'s result is combined onto
    /// the receiver, and the outcome is fatal exactly when `f`'s result is.
    pub fn and_then<F: FnOnce() -> DiagnosticResult<E>>(self, f: F) -> (r: DiagnosticResult<E>)
        requires
            !self.is_fatal ==> call_requires(f, ()),
        ensures
            self@.fatal ==> r@ == self@,
            !self@.fatal ==> exists|fr: DiagnosticResult<E>|
                #[trigger] call_ensures(f, (), fr) && r@ == self@.and_then(fr@),
    {
        if self.is_fatal {
            self
        } else {
            let fr = f();
            let ghost fr_snapshot = fr;
            let r = DiagnosticResult {
                is_fatal: fr.is_fatal,
                messages: combine(self.messages, fr.messages),
            };
            proof {
                assert(call_ensures(f, (), fr_snapshot) && r@ == self@.and_then(fr_snapshot@));
            }
            r
        }
    }

    /// Whether the run may proceed to produce artifacts.
    pub fn is_ok(&self) -> (r: bool)
        ensures
            r == !self@.fatal,
    {
        !self.is_fatal
    }

    /// Whether the run recorded an unrecoverable problem.
    pub fn is_err(&self) -> (r: bool)
        ensures
            r == self@.fatal,
    {
        self.is_fatal
    }

    /// Hands the accumulated messages to the caller.
    pub fn messages(self) -> (r: Vec<E>)
        ensures
            r@ == self@.messages,
    {
        self.messages
    }
}

} // verus!

