//! The completion client: owns the conversation, builds requests, and
//! commits completed answers back into the conversation. The transport
//! call itself is plain I/O and lives outside the library; callers hand
//! the built request to the transport and hand the decoded response back.

use crate::model::{CompletionRequest, Message, MessageView, Role};
use vstd::prelude::*;

verus! {

/// The model identifier sent with every request.
pub open spec fn default_model() -> Seq<char> {
    "gpt-3.5-turbo"@
}

/// The completion endpoint requests are addressed to.
pub open spec fn default_endpoint() -> Seq<char> {
    "https://api.openai.com/v1/chat/completions"@
}

/// The synthesized system prompt that opens every request's message list
/// without ever being stored in the conversation.
pub open spec fn default_system_msg() -> Seq<char> {
    "You are a helpful AI assistant."@
}

/// The assistant state: the fixed system prompt and the conversation so
/// far, an ordered sequence of user and assistant messages.
pub struct Assistant {
    system_msg: String,
    conversation: Vec<Message>,
}

/// Mathematical model of an [`Assistant`].
#[verifier::ext_equal]
pub struct AssistantView {
    pub system_msg: Seq<char>,
    pub conversation: Seq<MessageView>,
}

impl View for Assistant {
    type V = AssistantView;

    closed spec fn view(&self) -> AssistantView {
        AssistantView {
            system_msg: self.system_msg@,
            conversation: self.conversation@.map(|i: int, m: Message| m@),
        }
    }
}

/// The message list a request carries: the synthesized system message,
/// then the conversation in order.
pub open spec fn request_messages(a: AssistantView) -> Seq<MessageView> {
    seq![MessageView { role: Role::System, content: a.system_msg }] + a.conversation
}

impl Default for Assistant {
    /// A fresh assistant: the default system prompt, no conversation.
    fn default() -> (r: Self)
        ensures
            r@.system_msg == default_system_msg(),
            r@.conversation == Seq::<MessageView>::empty(),
    {
        let r = Assistant {
            system_msg: "You are a helpful AI assistant.".to_owned(),
            conversation: Vec::new(),
        };
        proof {
            assert(r@.conversation =~= Seq::<MessageView>::empty());
        }
        r
    }
}

impl Assistant {
    /// Builds the request for the current conversation: the default model,
    /// the system message followed by the conversation snapshot, and no
    /// sampling or streaming parameters set.
    fn generate_request(&self) -> (r: CompletionRequest)
        ensures
            r@.model == default_model(),
            r@.messages == request_messages(self@),
            r@.n is None,
            r@.stream is None,
            r@.max_tokens is None,
            r@.user is None,
    {
        let mut messages: Vec<Message> = Vec::new();
        messages.push(Message::system(self.system_msg.as_str()));
        let mut i: usize = 0;
        while i < self.conversation.len()
            invariant
                i <= self.conversation@.len(),
                messages@.len() == 1 + i,
                messages@[0]@ == (MessageView { role: Role::System, content: self@.system_msg }),
                forall|j: int| 0 <= j < i ==> messages@[j + 1]@ == self@.conversation[j],
            decreases self.conversation@.len() - i,
        {
            messages.push(clone_message(&self.conversation[i]));
            i = i + 1;
        }
        let r = CompletionRequest {
            model: "gpt-3.5-turbo".to_owned(),
            messages,
            n: None,
            stream: None,
            max_tokens: None,
            user: None,
        };
        proof {
            assert(r@.messages =~= request_messages(self@));
        }
        r
    }
}

/// A field-for-field copy of a message.
fn clone_message(m: &Message) -> (r: Message)
    ensures
        r@ == m@,
{
    Message { role: m.role, content: m.content.clone() }
}

/// The completion client: the endpoint and bearer credential handed to
/// the transport, and the assistant state.
pub struct ChatGPT {
    endpoint: String,
    token: String,
    assistant: Assistant,
}

/// Mathematical model of a [`ChatGPT`] client.
#[verifier::ext_equal]
pub struct ChatGPTView {
    pub endpoint: Seq<char>,
    pub token: Seq<char>,
    pub assistant: AssistantView,
}

impl View for ChatGPT {
    type V = ChatGPTView;

    closed spec fn view(&self) -> ChatGPTView {
        ChatGPTView { endpoint: self.endpoint@, token: self.token@, assistant: self.assistant@ }
    }
}

/// The client state after its conversation is emptied; the endpoint,
/// credential and system prompt are kept.
pub open spec fn cleared(c: ChatGPTView) -> ChatGPTView {
    ChatGPTView {
        endpoint: c.endpoint,
        token: c.token,
        assistant: AssistantView {
            system_msg: c.assistant.system_msg,
            conversation: Seq::empty(),
        },
    }
}

/// Law: clearing the conversation is idempotent. Clearing twice in a row
/// yields exactly the state that clearing once yields.
pub proof fn lemma_clear_idempotent(c: ChatGPTView)
    ensures
        cleared(cleared(c)) == cleared(c),
{
}

impl ChatGPT {
    /// A fresh client for the default endpoint, holding the given bearer
    /// credential and an empty conversation.
    pub fn new(token: String) -> (r: Self)
        ensures
            r@.endpoint == default_endpoint(),
            r@.token == token@,
            r@.assistant.system_msg == default_system_msg(),
            r@.assistant.conversation == Seq::<MessageView>::empty(),
    {
        let endpoint = "https://api.openai.com/v1/chat/completions".to_owned();
        let assistant = Assistant::default();
        ChatGPT { endpoint, token, assistant }
    }

    /// The endpoint requests are addressed to.
    pub fn endpoint(&self) -> (r: &String)
        ensures
            r@ == self@.endpoint,
    {
        &self.endpoint
    }

    /// The bearer credential sent with every request.
    pub fn token(&self) -> (r: &String)
        ensures
            r@ == self@.token,
    {
        &self.token
    }

    /// Empties the conversation; the rest of the client is untouched.
    pub fn clear_conversation(&mut self)
        ensures
            final(self)@ == cleared(old(self)@),
    {
        self.assistant.conversation.clear();
        proof {
            assert(self@.assistant.conversation =~= Seq::<MessageView>::empty());
            assert(self@ =~~= cleared(old(self)@));
        }
    }

    /// Starts a non-streaming exchange: appends the question as a user
    /// message and returns the request to hand to the transport. The
    /// decoded response is committed with [`ChatGPT::commit_response`].
    pub fn ask(&mut self, question: &str) -> (r: CompletionRequest)
        ensures
            final(self)@.assistant.conversation == old(self)@.assistant.conversation + seq![
                MessageView { role: Role::User, content: question@ },
            ],
            final(self)@.assistant.system_msg == old(self)@.assistant.system_msg,
            final(self)@.endpoint == old(self)@.endpoint,
            final(self)@.token == old(self)@.token,
            r@.model == default_model(),
            r@.messages == request_messages(final(self)@.assistant),
            r@.n is None,
            r@.max_tokens is None,
            r@.user is None,
            r@.stream is None,
    {
        self.assistant.conversation.push(Message::user(question));
        proof {
            assert(self@.assistant.conversation =~= old(self)@.assistant.conversation + seq![
                MessageView { role: Role::User, content: question@ },
            ]);
        }
        self.assistant.generate_request()
    }

    /// Starts a streaming exchange: as [`ChatGPT::ask`], but the returned
    /// request has its streaming flag set.
    pub fn ask_stream(&mut self, question: &str) -> (r: CompletionRequest)
        ensures
            final(self)@.assistant.conversation == old(self)@.assistant.conversation + seq![
                MessageView { role: Role::User, content: question@ },
            ],
            final(self)@.assistant.system_msg == old(self)@.assistant.system_msg,
            final(self)@.endpoint == old(self)@.endpoint,
            final(self)@.token == old(self)@.token,
            r@.model == default_model(),
            r@.messages == request_messages(final(self)@.assistant),
            r@.n is None,
            r@.max_tokens is None,
            r@.user is None,
            r@.stream == Some(true),
    {
        self.assistant.conversation.push(Message::user(question));
        proof {
            assert(self@.assistant.conversation =~= old(self)@.assistant.conversation + seq![
                MessageView { role: Role::User, content: question@ },
            ]);
        }
        let mut r = self.assistant.generate_request();
        r.stream = Some(true);
        r
    }

    /// Commits a completed exchange: appends the response's first choice
    /// message to the conversation and reports success. A response whose
    /// first choice message is missing is a protocol violation by the
    /// remote service: nothing is appended and the call reports failure.
    pub fn commit_response(&mut self, resp: &crate::model::CompletionResponse) -> (ok: bool)
        ensures
            ok == (resp@.choices.len() > 0 && resp@.choices[0].message is Some),
            ok ==> final(self)@.assistant.conversation == old(self)@.assistant.conversation + seq![
                resp@.choices[0].message->0,
            ],
            !ok ==> final(self)@ == old(self)@,
            final(self)@.assistant.system_msg == old(self)@.assistant.system_msg,
            final(self)@.endpoint == old(self)@.endpoint,
            final(self)@.token == old(self)@.token,
    {
        if resp.choices.len() > 0 {
            match &resp.choices[0].message {
                Some(m) => {
                    self.assistant.conversation.push(clone_message(m));
                    proof {
                        assert(self@.assistant.conversation =~= old(
                            self,
                        )@.assistant.conversation + seq![resp@.choices[0].message->0]);
                    }
                    true
                },
                None => {
                    proof {
                        assert(self@ =~~= old(self)@);
                    }
                    false
                },
            }
        } else {
            proof {
                assert(self@ =~~= old(self)@);
            }
            false
        }
    }
}

} // verus!
