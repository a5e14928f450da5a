//! Data model for chat-completion requests and responses, and the
//! accumulator that folds streamed delta fragments into one response.

use vstd::prelude::*;
use vstd::string::StringExecFns;

verus! {

/// The speaker of a message.
#[derive(Clone, Copy, Debug, PartialEq, Eq, Structural)]
pub enum Role {
    System,
    Assistant,
    User,
}

/// A single chat message, as it occurs in requests and responses.
#[derive(Clone, Debug)]
pub struct Message {
    pub role: Role,
    pub content: String,
}

/// Mathematical model of a [`Message`].
#[verifier::ext_equal]
pub struct MessageView {
    pub role: Role,
    pub content: Seq<char>,
}

impl View for Message {
    type V = MessageView;

    open spec fn view(&self) -> MessageView {
        MessageView { role: self.role, content: self.content@ }
    }
}

/// An incremental, partial update to one variant's message.
#[derive(Clone, Debug)]
pub struct MessageDelta {
    pub role: Option<Role>,
    pub content: Option<String>,
}

/// Mathematical model of a [`MessageDelta`].
#[verifier::ext_equal]
pub struct DeltaView {
    pub role: Option<Role>,
    pub content: Option<Seq<char>>,
}

impl View for MessageDelta {
    type V = DeltaView;

    open spec fn view(&self) -> DeltaView {
        DeltaView {
            role: self.role,
            content: match self.content {
                Some(ref s) => Some(s@),
                None => None,
            },
        }
    }
}

/// One candidate answer among possibly several generated per request,
/// addressed by a stable integer index.
#[derive(Clone, Debug)]
pub struct Choice {
    pub index: u64,
    pub message: Option<Message>,
    pub delta: Option<MessageDelta>,
    pub finish_reason: Option<String>,
}

/// Mathematical model of a [`Choice`].
#[verifier::ext_equal]
pub struct ChoiceView {
    pub index: u64,
    pub message: Option<MessageView>,
    pub delta: Option<DeltaView>,
    pub finish_reason: Option<Seq<char>>,
}

impl View for Choice {
    type V = ChoiceView;

    open spec fn view(&self) -> ChoiceView {
        ChoiceView {
            index: self.index,
            message: match self.message {
                Some(ref m) => Some(m@),
                None => None,
            },
            delta: match self.delta {
                Some(ref d) => Some(d@),
                None => None,
            },
            finish_reason: match self.finish_reason {
                Some(ref s) => Some(s@),
                None => None,
            },
        }
    }
}

/// The default-valued choice used to gap-fill sparse indices.
pub open spec fn default_choice_view() -> ChoiceView {
    ChoiceView { index: 0, message: None, delta: None, finish_reason: None }
}

impl Default for Choice {
    /// A default-valued choice: index zero, every optional field absent.
    fn default() -> (r: Self)
        ensures
            r@ == default_choice_view(),
    {
        Choice { index: 0, message: None, delta: None, finish_reason: None }
    }
}

/// Token usage accounting of a request/response pair.
#[derive(Clone, Copy, Debug, PartialEq, Eq, Structural)]
pub struct Usage {
    pub prompt_tokens: u32,
    pub completion_tokens: u32,
    pub total_tokens: u32,
}

/// A chat-completion request: model identifier, message list, optional
/// sampling/limit parameters, and the streaming flag.
#[derive(Clone, Debug)]
pub struct CompletionRequest {
    pub model: String,
    pub messages: Vec<Message>,
    pub n: Option<u32>,
    pub stream: Option<bool>,
    pub max_tokens: Option<u64>,
    pub user: Option<String>,
}

/// Mathematical model of a [`CompletionRequest`].
#[verifier::ext_equal]
pub struct RequestView {
    pub model: Seq<char>,
    pub messages: Seq<MessageView>,
    pub n: Option<u32>,
    pub stream: Option<bool>,
    pub max_tokens: Option<u64>,
    pub user: Option<Seq<char>>,
}

impl View for CompletionRequest {
    type V = RequestView;

    open spec fn view(&self) -> RequestView {
        RequestView {
            model: self.model@,
            messages: self.messages@.map(|i: int, m: Message| m@),
            n: self.n,
            stream: self.stream,
            max_tokens: self.max_tokens,
            user: match self.user {
                Some(ref s) => Some(s@),
                None => None,
            },
        }
    }
}

/// A completion response; streamed responses start empty and grow by one
/// [`CompletionResponse::merge_delta`] call per received fragment.
#[derive(Clone, Debug)]
pub struct CompletionResponse {
    pub id: String,
    pub object: String,
    pub created: u64,
    pub choices: Vec<Choice>,
    pub usage: Option<Usage>,
}

/// Mathematical model of a [`CompletionResponse`].
#[verifier::ext_equal]
pub struct ResponseView {
    pub id: Seq<char>,
    pub object: Seq<char>,
    pub created: u64,
    pub choices: Seq<ChoiceView>,
    pub usage: Option<Usage>,
}

impl View for CompletionResponse {
    type V = ResponseView;

    open spec fn view(&self) -> ResponseView {
        ResponseView {
            id: self.id@,
            object: self.object@,
            created: self.created,
            choices: self.choices@.map(|i: int, c: Choice| c@),
            usage: self.usage,
        }
    }
}

impl Default for CompletionResponse {
    /// The empty response that a streaming call starts accumulating into.
    fn default() -> (r: Self)
        ensures
            r@.id == Seq::<char>::empty(),
            r@.object == Seq::<char>::empty(),
            r@.created == 0,
            r@.choices == Seq::<ChoiceView>::empty(),
            r@.usage is None,
    {
        let r = CompletionResponse {
            id: String::new(),
            object: String::new(),
            created: 0,
            choices: Vec::new(),
            usage: None,
        };
        proof {
            assert(r@.choices =~= Seq::<ChoiceView>::empty());
        }
        r
    }
}

impl Message {
    /// A message spoken by the system prompt.
    pub fn system(msg: &str) -> (r: Self)
        ensures
            r@ == (MessageView { role: Role::System, content: msg@ }),
    {
        Message { role: Role::System, content: msg.to_owned() }
    }

    /// A message spoken by the user.
    pub fn user(msg: &str) -> (r: Self)
        ensures
            r@ == (MessageView { role: Role::User, content: msg@ }),
    {
        Message { role: Role::User, content: msg.to_owned() }
    }

    /// A message spoken by the assistant.
    pub fn assistant(msg: &str) -> (r: Self)
        ensures
            r@ == (MessageView { role: Role::Assistant, content: msg@ }),
    {
        Message { role: Role::Assistant, content: msg.to_owned() }
    }
}

/// Extends `t` with default-valued choices until position `idx` exists.
pub open spec fn gap_filled(t: Seq<ChoiceView>, idx: int) -> Seq<ChoiceView> {
    if t.len() >= idx + 1 {
        t
    } else {
        t + Seq::new((idx + 1 - t.len()) as nat, |i: int| default_choice_view())
    }
}

/// Applies one delta fragment to the choice currently held at its index:
/// a role (re)initializes the message to an empty text of that role, and
/// text is appended to the current message text.
pub open spec fn apply_delta(own: ChoiceView, d: DeltaView) -> ChoiceView {
    let with_role = match d.role {
        Some(r) => Some(MessageView { role: r, content: Seq::empty() }),
        None => own.message,
    };
    let with_text = match d.content {
        Some(s) => match with_role {
            Some(m) => Some(MessageView { role: m.role, content: m.content + s }),
            None => None,
        },
        None => with_role,
    };
    ChoiceView { index: own.index, message: with_text, delta: own.delta, finish_reason: own.finish_reason }
}

/// Folds a single incoming choice into the target choice sequence.
pub open spec fn merge_one(t: Seq<ChoiceView>, c: ChoiceView) -> Seq<ChoiceView> {
    let e = gap_filled(t, c.index as int);
    match c.delta {
        Some(d) => e.update(c.index as int, apply_delta(e[c.index as int], d)),
        None => e,
    }
}

/// Folds every incoming choice into the target choice sequence, in order.
pub open spec fn merge_choices(t: Seq<ChoiceView>, cs: Seq<ChoiceView>) -> Seq<ChoiceView>
    decreases cs.len(),
{
    if cs.len() == 0 {
        t
    } else {
        merge_choices(merge_one(t, cs[0]), cs.drop_first())
    }
}

/// One incoming choice is well-ordered against the current target: text
/// never arrives at an index before a role has initialized its message.
pub open spec fn delta_ok(t: Seq<ChoiceView>, c: ChoiceView) -> bool {
    match c.delta {
        Some(d) => d.content is Some ==> (d.role is Some || (c.index < t.len()
            && t[c.index as int].message is Some)),
        None => true,
    }
}

/// Every incoming choice, applied in order, is well-ordered against the
/// state the earlier ones produced, and its index fits the machine.
pub open spec fn merge_ok(t: Seq<ChoiceView>, cs: Seq<ChoiceView>) -> bool
    decreases cs.len(),
{
    cs.len() == 0 || (cs[0].index < usize::MAX && delta_ok(t, cs[0]) && merge_ok(
        merge_one(t, cs[0]),
        cs.drop_first(),
    ))
}

/// Unrolls one step of `merge_choices` from the back: merging a prefix of
/// one more fragment is merging the shorter prefix, then that fragment.
pub proof fn lemma_merge_choices_snoc(t: Seq<ChoiceView>, cs: Seq<ChoiceView>, k: int)
    requires
        0 <= k < cs.len(),
    ensures
        merge_choices(t, cs.take(k + 1)) == merge_one(merge_choices(t, cs.take(k)), cs[k]),
    decreases k,
{
    if k == 0 {
        assert(cs.take(1).drop_first() =~= cs.take(0));
        assert(merge_choices(t, cs.take(1)) == merge_choices(merge_one(t, cs[0]), cs.take(0)));
    } else {
        let t1 = merge_one(t, cs[0]);
        let cs1 = cs.drop_first();
        lemma_merge_choices_snoc(t1, cs1, k - 1);
        assert(cs.take(k + 1).drop_first() =~= cs1.take(k));
        assert(cs.take(k).drop_first() =~= cs1.take(k - 1));
        assert(cs.take(k + 1)[0] == cs[0]);
        assert(cs.take(k)[0] == cs[0]);
        assert(cs1[k - 1] == cs[k]);
        assert(merge_choices(t, cs.take(k + 1)) == merge_choices(t1, cs1.take(k)));
        assert(merge_choices(t, cs.take(k)) == merge_choices(t1, cs1.take(k - 1)));
    }
}

impl CompletionResponse {
    /// The text of the first choice's finished message, if there is one.
    pub fn primary_response(&self) -> (r: Option<&str>)
        ensures
            match r {
                Some(s) => {
                    &&& self@.choices.len() > 0
                    &&& self@.choices[0].message matches Some(m)
                    &&& s@ == m.content
                },
                None => self@.choices.len() == 0 || self@.choices[0].message is None,
            },
    {
        if self.choices.len() > 0 {
            match &self.choices[0].message {
                Some(m) => Some(m.content.as_str()),
                None => None,
            }
        } else {
            None
        }
    }

    /// The total token count reported by the service, if any.
    pub fn used_tokens(&self) -> (r: Option<u32>)
        ensures
            r == match self@.usage {
                Some(u) => Some(u.total_tokens),
                None => None::<u32>,
            },
    {
        match &self.usage {
            Some(u) => Some(u.total_tokens),
            None => None,
        }
    }

    /// Folds all choices of `other` into `self`, in place: indices are gap
    /// filled with default choices, a role-bearing delta resets the message
    /// at its index, and delta text is appended to that message's text.
    /// Role-then-text ordering is a precondition, enforced upstream.
    pub fn merge_delta(&mut self, other: CompletionResponse)
        requires
            merge_ok(old(self)@.choices, other@.choices),
        ensures
            final(self)@.choices == merge_choices(old(self)@.choices, other@.choices),
            final(self)@.id == old(self)@.id,
            final(self)@.object == old(self)@.object,
            final(self)@.created == old(self)@.created,
            final(self)@.usage == old(self)@.usage,
    {
        let ghost pre = self@;
        let ghost orig = self@.choices;
        let ghost incoming = other@.choices;
        let n = other.choices.len();
        proof {
            assert(incoming.skip(0) =~= incoming);
        }
        let mut k: usize = 0;
        while k < n
            invariant
                k <= n,
                n == incoming.len(),
                other@.choices == incoming,
                self@.choices == merge_choices(orig, incoming.take(k as int)),
                merge_ok(self@.choices, incoming.skip(k as int)),
                self@.id == pre.id,
                self@.object == pre.object,
                self@.created == pre.created,
                self@.usage == pre.usage,
            decreases n - k,
        {
            let ghost cur = self@.choices;
            proof {
                assert(incoming.skip(k as int)[0] == incoming[k as int]);
                assert(incoming.skip(k as int).drop_first() =~= incoming.skip(k as int + 1));
            }
            let c = &other.choices[k];
            let idx = c.index as usize;
            let ghost e = gap_filled(cur, c@.index as int);
            proof {
                assert(cur.take(cur.len() as int) =~= cur);
            }
            while self.choices.len() <= idx
                invariant
                    idx == c@.index as int,
                    cur.len() <= self@.choices.len(),
                    self@.choices.len() <= idx + 1 || self@.choices == cur,
                    self@.choices.take(cur.len() as int) == cur,
                    forall|j: int|
                        cur.len() <= j < self@.choices.len() ==> self@.choices[j]
                            == default_choice_view(),
                    self@.id == pre.id,
                    self@.object == pre.object,
                    self@.created == pre.created,
                    self@.usage == pre.usage,
                decreases idx + 1 - self.choices.len(),
            {
                let ghost before = self@.choices;
                self.choices.push(Choice::default());
                proof {
                    assert(self@.choices =~= before.push(default_choice_view()));
                    assert(self@.choices.take(cur.len() as int) =~= before.take(cur.len() as int));
                }
            }
            proof {
                assert(self@.choices =~= e);
            }
            match &c.delta {
                Some(d) => {
                    let mc = &mut self.choices[idx];
                    if let Some(r) = d.role {
                        mc.message = Some(Message { role: r, content: String::new() });
                    }
                    if let Some(s) = &d.content {
                        match &mut mc.message {
                            Some(m) => {
                                m.content.append(s.as_str());
                            },
                            None => {},
                        }
                    }
                    proof {
                        assert(self@.choices =~~= e.update(idx as int, apply_delta(
                            e[idx as int],
                            d@,
                        )));
                        assert(self@.choices =~~= merge_one(cur, c@));
                    }
                },
                None => {
                    proof {
                        assert(self@.choices =~~= merge_one(cur, c@));
                    }
                },
            }
            proof {
                lemma_merge_choices_snoc(orig, incoming, k as int);
                assert(self@.choices == merge_choices(orig, incoming.take(k as int + 1)));
            }
            k = k + 1;
        }
        proof {
            assert(incoming.take(n as int) =~= incoming);
        }
    }
}

/// The per-index message-presence flags of a choice sequence.
pub open spec fn msg_flags(t: Seq<ChoiceView>) -> Seq<bool> {
    Seq::new(t.len(), |i: int| t[i].message is Some)
}

/// Gap-filling at the flag level: absent positions hold no message.
pub open spec fn flag_gap_filled(f: Seq<bool>, idx: int) -> Seq<bool> {
    if f.len() >= idx + 1 {
        f
    } else {
        f + Seq::new((idx + 1 - f.len()) as nat, |i: int| false)
    }
}

/// One merge step at the flag level: only a role-bearing delta changes
/// whether the message at the fragment's index is present.
pub open spec fn flag_merge_one(f: Seq<bool>, c: ChoiceView) -> Seq<bool> {
    let e = flag_gap_filled(f, c.index as int);
    match c.delta {
        Some(d) => if d.role is Some {
            e.update(c.index as int, true)
        } else {
            e
        },
        None => e,
    }
}

/// Merging one choice changes the message-presence flags exactly as
/// `flag_merge_one` says.
pub proof fn lemma_merge_one_flags(t: Seq<ChoiceView>, c: ChoiceView)
    ensures
        msg_flags(merge_one(t, c)) == flag_merge_one(msg_flags(t), c),
{
    let idx = c.index as int;
    assert(msg_flags(gap_filled(t, idx)) =~= flag_gap_filled(msg_flags(t), idx));
    match c.delta {
        Some(d) => {
            assert(msg_flags(merge_one(t, c)) =~= flag_merge_one(msg_flags(t), c));
        },
        None => {
            assert(msg_flags(merge_one(t, c)) =~= flag_merge_one(msg_flags(t), c));
        },
    }
}

impl CompletionResponse {
    /// Whether `other`'s choices may be merged into `self`: every delta
    /// fragment carries its text only after a role has initialized the
    /// message at its index, and every index fits the machine. This is
    /// exactly the precondition of [`CompletionResponse::merge_delta`].
    pub fn delta_mergeable(&self, other: &CompletionResponse) -> (b: bool)
        ensures
            b == merge_ok(self@.choices, other@.choices),
    {
        let ghost t0 = self@.choices;
        let ghost cs = other@.choices;
        let mut flags: Vec<bool> = Vec::new();
        let mut i: usize = 0;
        while i < self.choices.len()
            invariant
                i <= self@.choices.len(),
                t0 == self@.choices,
                flags@.len() == i,
                forall|j: int| 0 <= j < i ==> flags@[j] == (t0[j].message is Some),
            decreases self@.choices.len() - i,
        {
            flags.push(self.choices[i].message.is_some());
            i = i + 1;
        }
        proof {
            assert(flags@ =~= msg_flags(t0));
            assert(cs.skip(0) =~= cs);
        }
        let ghost mut cur = t0;
        let n = other.choices.len();
        let mut k: usize = 0;
        while k < n
            invariant
                k <= n,
                n == cs.len(),
                cs == other@.choices,
                t0 == self@.choices,
                cur == merge_choices(t0, cs.take(k as int)),
                flags@ == msg_flags(cur),
                merge_ok(t0, cs) <==> merge_ok(cur, cs.skip(k as int)),
            decreases n - k,
        {
            proof {
                assert(cs.skip(k as int)[0] == cs[k as int]);
                assert(cs.skip(k as int).drop_first() =~= cs.skip(k as int + 1));
            }
            let c = &other.choices[k];
            if !(c.index < usize::MAX as u64) {
                return false;
            }
            let idx = c.index as usize;
            let ghost f0 = flags@;
            while flags.len() <= idx
                invariant
                    idx < usize::MAX,
                    f0.len() <= flags@.len(),
                    flags@.len() <= idx + 1 || flags@ == f0,
                    flags@.take(f0.len() as int) == f0,
                    forall|j: int| f0.len() <= j < flags@.len() ==> flags@[j] == false,
                decreases idx + 1 - flags.len(),
            {
                let ghost before = flags@;
                flags.push(false);
                proof {
                    assert(flags@.take(f0.len() as int) =~= before.take(f0.len() as int));
                }
            }
            proof {
                assert(flags@ =~= flag_gap_filled(f0, idx as int));
            }
            let d_ok = match &c.delta {
                Some(d) => !(d.content.is_some() && d.role.is_none() && !flags[idx]),
                None => true,
            };
            proof {
                assert(flag_gap_filled(f0, idx as int)[idx as int] == (idx < cur.len()
                    && cur[idx as int].message is Some));
                assert(d_ok == delta_ok(cur, cs[k as int]));
            }
            if !d_ok {
                return false;
            }
            let mut set_role = false;
            if let Some(d) = &c.delta {
                if d.role.is_some() {
                    set_role = true;
                }
            }
            if set_role {
                flags[idx] = true;
            }
            proof {
                assert(flags@ =~= flag_merge_one(f0, cs[k as int]));
                lemma_merge_one_flags(cur, cs[k as int]);
                lemma_merge_choices_snoc(t0, cs, k as int);
                cur = merge_one(cur, cs[k as int]);
            }
            k = k + 1;
        }
        proof {
            assert(cs.take(n as int) =~= cs);
        }
        true
    }
}

/// Law: merging fragments for different indices is order-independent.
/// Folding `a` then `b` into any target equals folding `b` then `a`,
/// whenever the two fragments address distinct variant indices.
pub proof fn lemma_merge_commutes(t: Seq<ChoiceView>, a: ChoiceView, b: ChoiceView)
    requires
        a.index != b.index,
    ensures
        merge_one(merge_one(t, a), b) == merge_one(merge_one(t, b), a),
{
    let ia = a.index as int;
    let ib = b.index as int;
    let ma = merge_one(t, a);
    let mb = merge_one(t, b);
    let lhs = merge_one(ma, b);
    let rhs = merge_one(mb, a);
    assert(lhs.len() == rhs.len());
    assert forall|j: int| 0 <= j < lhs.len() implies lhs[j] == rhs[j] by {
        if j == ia {
            assert(ia < ma.len());
            assert(lhs[j] == gap_filled(ma, ib)[j]);
            assert(gap_filled(ma, ib)[j] == ma[j]);
            assert(ma[j] == (match a.delta {
                Some(d) => apply_delta(gap_filled(t, ia)[ia], d),
                None => gap_filled(t, ia)[ia],
            }));
            assert(rhs[j] == (match a.delta {
                Some(d) => apply_delta(gap_filled(mb, ia)[ia], d),
                None => gap_filled(mb, ia)[ia],
            }));
            assert(gap_filled(t, ia)[ia] == gap_filled(mb, ia)[ia]);
        } else if j == ib {
            assert(ib < mb.len());
            assert(rhs[j] == gap_filled(mb, ia)[j]);
            assert(gap_filled(mb, ia)[j] == mb[j]);
            assert(mb[j] == (match b.delta {
                Some(d) => apply_delta(gap_filled(t, ib)[ib], d),
                None => gap_filled(t, ib)[ib],
            }));
            assert(lhs[j] == (match b.delta {
                Some(d) => apply_delta(gap_filled(ma, ib)[ib], d),
                None => gap_filled(ma, ib)[ib],
            }));
            assert(gap_filled(t, ib)[ib] == gap_filled(ma, ib)[ib]);
        } else {
            assert(lhs[j] == (if j < t.len() {
                t[j]
            } else {
                default_choice_view()
            }));
            assert(rhs[j] == (if j < t.len() {
                t[j]
            } else {
                default_choice_view()
            }));
        }
    }
    assert(lhs =~= rhs);
}

/// Law: merging in batches equals merging at once. Folding the
/// fragments of two arriving responses one response at a time yields
/// exactly the fold of their concatenated fragment list, so an
/// accumulator driven frame by frame computes the same response as one
/// driven by the whole stream.
pub proof fn lemma_merge_batching(t: Seq<ChoiceView>, a: Seq<ChoiceView>, b: Seq<ChoiceView>)
    ensures
        merge_choices(t, a + b) == merge_choices(merge_choices(t, a), b),
    decreases a.len(),
{
    if a.len() == 0 {
        assert(a + b =~= b);
    } else {
        assert((a + b)[0] == a[0]);
        assert((a + b).drop_first() =~= a.drop_first() + b);
        lemma_merge_batching(merge_one(t, a[0]), a.drop_first(), b);
    }
}

/// Law: merging a single fragment into an empty response gap-fills. The
/// resulting choice sequence reaches exactly up to the fragment's index,
/// every position before it holds the default-valued choice, and the
/// fragment's own position carries its content.
pub proof fn lemma_merge_gap_fills(c: ChoiceView)
    ensures
        merge_one(Seq::<ChoiceView>::empty(), c).len() == c.index + 1,
        forall|j: int|
            0 <= j < c.index ==> merge_one(Seq::<ChoiceView>::empty(), c)[j]
                == default_choice_view(),
        merge_one(Seq::<ChoiceView>::empty(), c)[c.index as int] == match c.delta {
            Some(d) => apply_delta(default_choice_view(), d),
            None => default_choice_view(),
        },
{
}

/// Law: for one and the same index, delta text appends in receipt
/// order. Folding two text-bearing fragments for an index whose message
/// is initialized appends the first text, then the second.
pub proof fn lemma_text_appends_in_order(
    t: Seq<ChoiceView>,
    a: ChoiceView,
    b: ChoiceView,
    s1: Seq<char>,
    s2: Seq<char>,
)
    requires
        b.index == a.index,
        a.delta == Some(DeltaView { role: None, content: Some(s1) }),
        b.delta == Some(DeltaView { role: None, content: Some(s2) }),
        a.index < t.len(),
        t[a.index as int].message is Some,
    ensures
        merge_one(merge_one(t, a), b)[a.index as int].message == Some(
            MessageView {
                role: t[a.index as int].message->0.role,
                content: t[a.index as int].message->0.content + s1 + s2,
            },
        ),
{
    let idx = a.index as int;
    let m1 = merge_one(t, a);
    assert(gap_filled(t, idx) == t);
    assert(m1[idx].message == Some(MessageView {
        role: t[idx].message->0.role,
        content: t[idx].message->0.content + s1,
    }));
    assert(gap_filled(m1, idx) == m1);
}

} // verus!
