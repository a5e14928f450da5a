//! The consumer side of the streaming coordinator: the state a renderer
//! keeps per call, and the one-step decision function that applies a
//! queued message to it. The channel plumbing and the polling loop stay
//! outside; they hand each received message to [`SessionState::apply`].

use crate::model::{CompletionResponse, ResponseView};
use vstd::prelude::*;
use vstd::string::StringExecFns;

verus! {

/// A message from the worker toward the renderer: the whole answer of a
/// non-streaming call, one streamed partial fragment, or the terminal
/// flush that ends a call.
pub enum UiMsg {
    Final(CompletionResponse),
    Partial(CompletionResponse),
    Flush,
}

/// Mathematical model of a [`UiMsg`].
pub enum UiMsgView {
    Final(ResponseView),
    Partial(ResponseView),
    Flush,
}

impl View for UiMsg {
    type V = UiMsgView;

    open spec fn view(&self) -> UiMsgView {
        match self {
            UiMsg::Final(r) => UiMsgView::Final(r@),
            UiMsg::Partial(r) => UiMsgView::Partial(r@),
            UiMsg::Flush => UiMsgView::Flush,
        }
    }
}

/// The renderer's per-call state: the text shown so far, and whether a
/// call is in flight.
pub struct SessionState {
    pub response: String,
    pub loading: bool,
}

/// Mathematical model of a [`SessionState`].
#[verifier::ext_equal]
pub struct SessionView {
    pub response: Seq<char>,
    pub loading: bool,
}

impl View for SessionState {
    type V = SessionView;

    open spec fn view(&self) -> SessionView {
        SessionView { response: self.response@, loading: self.loading }
    }
}

/// The delta text a partial fragment carries for the first choice, if
/// any.
pub open spec fn partial_text(r: ResponseView) -> Option<Seq<char>> {
    if r.choices.len() > 0 {
        match r.choices[0].delta {
            Some(d) => d.content,
            None => None,
        }
    } else {
        None
    }
}

/// What one applied message does to the renderer state: a final answer
/// replaces the text and ends the call, a partial fragment appends its
/// delta text, the flush ends the call, and every message arriving while
/// no call is in flight is dropped.
pub open spec fn apply_spec(s: SessionView, m: UiMsgView) -> SessionView {
    if !s.loading {
        s
    } else {
        match m {
            UiMsgView::Final(r) => SessionView {
                response: match r.choices[0].message {
                    Some(msg) => msg.content,
                    None => s.response,
                },
                loading: false,
            },
            UiMsgView::Partial(r) => SessionView {
                response: match partial_text(r) {
                    Some(t) => s.response + t,
                    None => s.response,
                },
                loading: s.loading,
            },
            UiMsgView::Flush => SessionView { response: s.response, loading: false },
        }
    }
}

/// A message's well-formedness at the renderer: a final answer carries
/// its first choice message, and a partial fragment carries at least one
/// choice. Both are guaranteed by the worker that sends them.
pub open spec fn msg_wf(m: UiMsgView) -> bool {
    match m {
        UiMsgView::Final(r) => r.choices.len() > 0 && r.choices[0].message is Some,
        UiMsgView::Partial(r) => r.choices.len() > 0,
        UiMsgView::Flush => true,
    }
}

/// Law: late fragments are dropped. Once no call is in flight, applying
/// any message leaves the renderer state exactly as it is.
pub proof fn lemma_late_messages_dropped(s: SessionView, m: UiMsgView)
    requires
        !s.loading,
    ensures
        apply_spec(s, m) == s,
{
}

impl SessionState {
    /// A fresh renderer state: no text, no call in flight.
    pub fn new() -> (r: Self)
        ensures
            r@.response == Seq::<char>::empty(),
            !r@.loading,
    {
        SessionState { response: String::new(), loading: false }
    }

    /// Marks a call as in flight and clears the shown text, as the
    /// renderer does when it starts a new call.
    pub fn start_call(&mut self)
        ensures
            final(self)@.loading,
            final(self)@.response == Seq::<char>::empty(),
    {
        self.loading = true;
        self.response = String::new();
    }

    /// Applies one queued message, as [`apply_spec`] says.
    pub fn apply(&mut self, msg: &UiMsg)
        requires
            msg_wf(msg@),
        ensures
            final(self)@ == apply_spec(old(self)@, msg@),
    {
        if !self.loading {
            return;
        }
        match msg {
            UiMsg::Final(r) => {
                match &r.choices[0].message {
                    Some(m) => {
                        self.response = m.content.clone();
                    },
                    None => {},
                }
                self.loading = false;
            },
            UiMsg::Partial(r) => {
                match &r.choices[0].delta {
                    Some(d) => match &d.content {
                        Some(t) => {
                            self.response.append(t.as_str());
                        },
                        None => {},
                    },
                    None => {},
                }
            },
            UiMsg::Flush => {
                self.loading = false;
            },
        }
        proof {
            assert(self@ =~~= apply_spec(old(self)@, msg@));
        }
    }
}

} // verus!
