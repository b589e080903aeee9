//! The conversation session: validated configuration, context construction
//! under the token budget, and completion of the non-streaming path.
use vstd::prelude::*;
use vstd::string::StrSliceExecFns;
use vstd::string::StringExecFns;
use crate::error::ChatGPTError;
use crate::error::ChatGPTResult;
use crate::history::HistoryStore;
use crate::tokenizer::count;
use crate::tokenizer::token_count;
use crate::types::{ChatRequest, ChatResponse, HistoryMessage, Message, MessageView, NodeView,
    views_of};

verus! {

/// A credential is well formed when it can stand in an authorization header:
/// every character is a tab, or anything but a control character and delete.
/// (A character beyond ASCII is carried in bytes the header accepts.)
pub open spec fn valid_api_key(s: Seq<char>) -> bool {
    forall|i: int|
        0 <= i < s.len() ==> {
            let c = (#[trigger] s[i]) as u32;
            c == 9 || (32 <= c && c != 127)
        }
}

/// Check a credential for well-formedness.
pub fn check_api_key(s: &str) -> (r: bool)
    ensures
        r == valid_api_key(s@),
{
    let n = s.unicode_len();
    let mut i: usize = 0;
    while i < n
        invariant
            n == s@.len(),
            0 <= i <= n,
            forall|j: int|
                0 <= j < i ==> {
                    let c = (#[trigger] s@[j]) as u32;
                    c == 9 || (32 <= c && c != 127)
                },
        decreases n - i,
    {
        let c = s.get_char(i);
        let v = c as u32;
        if !(v == 9 || (32 <= v && v != 127)) {
            return false;
        }
        i += 1;
    }
    true
}

/// The concatenation, in order and with no separator, of the contents of a
/// message sequence.  This is the approximation the token budget is checked
/// against: no role framing and no per-message overhead.
pub open spec fn joined_contents(ms: Seq<MessageView>) -> Seq<char>
    decreases ms.len(),
{
    if ms.len() == 0 {
        Seq::empty()
    } else {
        ms.first().content + joined_contents(ms.drop_first())
    }
}

/// Appending a message appends its content to the joined contents.
pub proof fn lemma_joined_push(ms: Seq<MessageView>, m: MessageView)
    ensures
        joined_contents(ms.push(m)) =~= joined_contents(ms) + m.content,
    decreases ms.len(),
{
    if ms.len() == 0 {
        assert(ms.push(m).first() == m);
        assert(ms.push(m).drop_first() =~= Seq::<MessageView>::empty());
        assert(joined_contents(ms.push(m)) == m.content + joined_contents(
            Seq::<MessageView>::empty(),
        ));
        assert(m.content + Seq::<char>::empty() =~= m.content);
        assert(joined_contents(ms) + m.content =~= Seq::<char>::empty() + m.content);
        assert(Seq::<char>::empty() + m.content =~= m.content);
    } else {
        assert(ms.push(m).first() == ms.first());
        assert(ms.push(m).drop_first() =~= ms.drop_first().push(m));
        lemma_joined_push(ms.drop_first(), m);
    }
}

/// The message block of the included ancestors, oldest first: the walk
/// collects nodes newest first, so the block is the walk reversed.
pub open spec fn walk_messages(chain: Seq<NodeView>) -> Seq<MessageView>
    decreases chain.len(),
{
    if chain.len() == 0 {
        Seq::empty()
    } else {
        seq![chain.last().message] + walk_messages(chain.drop_last())
    }
}

pub proof fn lemma_walk_messages_len(chain: Seq<NodeView>)
    ensures
        walk_messages(chain).len() == chain.len(),
    decreases chain.len(),
{
    if chain.len() > 0 {
        lemma_walk_messages_len(chain.drop_last());
    }
}

/// The walk block holds each included ancestor's message, in reverse walk
/// order: position `i` holds the message of the ancestor looked up last but
/// `i`.
pub proof fn lemma_walk_messages_index(chain: Seq<NodeView>, i: int)
    requires
        0 <= i < chain.len(),
    ensures
        walk_messages(chain).len() == chain.len(),
        walk_messages(chain)[i] == chain[chain.len() - 1 - i].message,
    decreases chain.len(),
{
    lemma_walk_messages_len(chain);
    if i > 0 {
        lemma_walk_messages_index(chain.drop_last(), i - 1);
    }
}

/// The view of a user message carrying `text`.
pub open spec fn user_view(text: Seq<char>) -> MessageView {
    MessageView { role: "user"@, content: text }
}

/// The view of an optional id.
pub open spec fn opt_id_view(p: Option<String>) -> Option<Seq<char>> {
    match p {
        Some(s) => Some(s@),
        None => None,
    }
}

/// The full context for a chain of included ancestors: the system message,
/// the ancestors oldest first, the new user message.
pub open spec fn context_of(sys: MessageView, user: MessageView, chain: Seq<NodeView>) -> Seq<
    MessageView,
> {
    seq![sys] + walk_messages(chain) + seq![user]
}

/// The id the walk looks up at step `i`: the caller's parent id first, then
/// each included node's own parent id.
pub open spec fn cursor_at(parent: Option<Seq<char>>, chain: Seq<NodeView>, i: int) -> Option<
    Seq<char>,
> {
    if i == 0 {
        parent
    } else {
        chain[i - 1].parent_id
    }
}

/// `chain` is an initial run of the ancestor walk from `parent` through
/// `store`: each step's cursor names a stored node, which is the next
/// element.
pub open spec fn is_chain(store: HistoryStore, parent: Option<Seq<char>>, chain: Seq<NodeView>) -> bool {
    forall|i: int|
        0 <= i < chain.len() ==> (#[trigger] cursor_at(parent, chain, i)) is Some
            && store.spec_get(cursor_at(parent, chain, i)->0) == Some(chain[i])
}

/// The text the walk counts for a candidate ancestor: the contents of the
/// context built so far, with the candidate's content appended.
pub open spec fn candidate_text(
    sys: MessageView,
    user: MessageView,
    chain: Seq<NodeView>,
    cand: NodeView,
) -> Seq<char> {
    joined_contents(context_of(sys, user, chain)) + cand.message.content
}

/// The candidate ancestor fits: the token count of its candidate text stays
/// within the budget.
pub open spec fn candidate_fits(
    sys: MessageView,
    user: MessageView,
    chain: Seq<NodeView>,
    cand: NodeView,
    max: nat,
) -> bool {
    token_count(candidate_text(sys, user, chain, cand)) <= max
}

/// The tokenizer handles the candidate's text: counting it succeeds.
pub open spec fn candidate_counts(
    sys: MessageView,
    user: MessageView,
    chain: Seq<NodeView>,
    cand: NodeView,
) -> bool {
    crate::tokenizer::encoding_ok(candidate_text(sys, user, chain, cand))
}

/// The walk ran out of ancestors after `chain`: the next cursor is absent, or
/// the node it names is not stored.
pub open spec fn chain_exhausted(
    store: HistoryStore,
    parent: Option<Seq<char>>,
    chain: Seq<NodeView>,
) -> bool {
    ||| cursor_at(parent, chain, chain.len() as int) is None
    ||| store.spec_get(cursor_at(parent, chain, chain.len() as int)->0) is None
}

/// The walk can go no further after `chain`: it ran out of ancestors, or the
/// next ancestor would leave the budget.
pub open spec fn walk_stops(
    store: HistoryStore,
    parent: Option<Seq<char>>,
    chain: Seq<NodeView>,
    sys: MessageView,
    user: MessageView,
    max: nat,
) -> bool {
    ||| chain_exhausted(store, parent, chain)
    ||| {
        let c = cursor_at(parent, chain, chain.len() as int);
        &&& c is Some
        &&& store.spec_get(c->0) is Some
        &&& candidate_counts(sys, user, chain, store.spec_get(c->0)->0)
        &&& !candidate_fits(sys, user, chain, store.spec_get(c->0)->0, max)
    }
}

/// `result` is the context the budgeted ancestor walk yields, and `chain` the
/// run of ancestors it included: every included candidate fit when it was
/// looked at, and the walk stopped right after the run.  The walk visits at
/// most one ancestor per stored node; on a store whose parent references form
/// a forest it always reaches its stopping point first, so the length bound
/// is an alternative stop only where the references loop.
pub open spec fn built_context(
    store: HistoryStore,
    sys: MessageView,
    user: MessageView,
    parent: Option<Seq<char>>,
    max: nat,
    chain: Seq<NodeView>,
    result: Seq<MessageView>,
) -> bool {
    &&& is_chain(store, parent, chain)
    &&& forall|i: int|
        0 <= i < chain.len() ==> candidate_fits(sys, user, #[trigger] chain.take(i), chain[i], max)
    &&& forall|i: int|
        0 <= i < chain.len() ==> candidate_counts(sys, user, #[trigger] chain.take(i), chain[i])
    &&& chain.len() <= store.spec_len()
    &&& walk_stops(store, parent, chain, sys, user, max) || chain.len() == store.spec_len()
    &&& result == context_of(sys, user, chain)
}

/// The walk failed part way: after including `chain` — every lookup
/// resolving, every candidate counted and fitting — the next ancestor
/// resolves but counting its candidate text fails.
pub open spec fn walk_fails(
    store: HistoryStore,
    sys: MessageView,
    user: MessageView,
    parent: Option<Seq<char>>,
    max: nat,
    chain: Seq<NodeView>,
) -> bool {
    &&& is_chain(store, parent, chain)
    &&& forall|i: int|
        0 <= i < chain.len() ==> candidate_fits(sys, user, #[trigger] chain.take(i), chain[i], max)
    &&& forall|i: int|
        0 <= i < chain.len() ==> candidate_counts(sys, user, #[trigger] chain.take(i), chain[i])
    &&& chain.len() <= store.spec_len()
    &&& cursor_at(parent, chain, chain.len() as int) is Some
    &&& store.spec_get(cursor_at(parent, chain, chain.len() as int)->0) is Some
    &&& !candidate_counts(
        sys,
        user,
        chain,
        store.spec_get(cursor_at(parent, chain, chain.len() as int)->0)->0,
    )
}

/// Some run of the walk yields exactly this message sequence.
pub open spec fn some_built(
    store: HistoryStore,
    sys: MessageView,
    user: MessageView,
    parent: Option<Seq<char>>,
    max: nat,
    rv: Seq<MessageView>,
) -> bool {
    exists|chain: Seq<NodeView>|
        #[trigger] built_context(store, sys, user, parent, max, chain, rv)
}

/// Some run of the walk hits a candidate whose text the tokenizer refuses.
pub open spec fn some_failed(
    store: HistoryStore,
    sys: MessageView,
    user: MessageView,
    parent: Option<Seq<char>>,
    max: nat,
) -> bool {
    exists|chain: Seq<NodeView>| #[trigger] walk_fails(store, sys, user, parent, max, chain)
}

/// What the context walk returns: a built context, or a decode error exactly
/// where the tokenizer refused a candidate's text.
pub open spec fn walk_output(
    store: HistoryStore,
    sys: MessageView,
    user: MessageView,
    parent: Option<Seq<char>>,
    max: nat,
    r: ChatGPTResult<Vec<Message>>,
) -> bool {
    match r {
        Ok(msgs) => some_built(store, sys, user, parent, max, views_of(msgs@)),
        Err(e) => (e matches ChatGPTError::Decode(_)) && some_failed(store, sys, user, parent, max),
    }
}

/// What assembling a request returns: the model and flag set, around the
/// walk's context; or the walk's decode error.
pub open spec fn request_output(
    store: HistoryStore,
    sys: MessageView,
    user: MessageView,
    parent: Option<Seq<char>>,
    max: nat,
    model: Seq<char>,
    stream: Option<bool>,
    r: ChatGPTResult<ChatRequest>,
) -> bool {
    match r {
        Ok(req) => req.model@ == model && req.stream == stream && some_built(
            store,
            sys,
            user,
            parent,
            max,
            views_of(req.messages@),
        ),
        Err(e) => (e matches ChatGPTError::Decode(_)) && some_failed(store, sys, user, parent, max),
    }
}

/// The views of an inserted message sequence are the views with the new
/// message's view inserted at the same place.
proof fn lemma_views_insert(s: Seq<Message>, i: int, m: Message)
    requires
        0 <= i <= s.len(),
    ensures
        views_of(s.insert(i, m)) =~= views_of(s).insert(i, m@),
{
}

/// Inserting the next included ancestor's message right after the system
/// message extends the context by that ancestor.
proof fn lemma_context_insert(sys: MessageView, user: MessageView, chain: Seq<NodeView>, node: NodeView)
    ensures
        context_of(sys, user, chain.push(node)) =~= context_of(sys, user, chain).insert(
            1,
            node.message,
        ),
{
    assert(chain.push(node).drop_last() =~= chain);
    assert(chain.push(node).last() == node);
    assert(walk_messages(chain.push(node)) =~= seq![node.message] + walk_messages(chain));
    lemma_walk_messages_len(chain);
}

/// Concatenate the contents of the messages, in order.
fn joined_of(msgs: &Vec<Message>) -> (s: String)
    ensures
        s@ == joined_contents(views_of(msgs@)),
{
    let mut s = String::new();
    let mut i: usize = 0;
    while i < msgs.len()
        invariant
            0 <= i <= msgs@.len(),
            s@ == joined_contents(views_of(msgs@).take(i as int)),
        decreases msgs@.len() - i,
    {
        s.append(msgs[i].content.as_str());
        proof {
            let views = views_of(msgs@);
            assert(views.take(i + 1) =~= views.take(i as int).push(views[i as int]));
            lemma_joined_push(views.take(i as int), views[i as int]);
        }
        i += 1;
    }
    proof {
        assert(views_of(msgs@).take(msgs@.len() as int) =~= views_of(msgs@));
    }
    s
}

/// A conversation session: its fixed configuration and its growing history.
pub struct Client {
    /// The model name sent with every request.
    pub model: String,
    /// The token budget a built context may approximate.
    pub max_token: usize,
    /// The fixed system message every context starts with.
    pub system_message: String,
    /// The conversation forest, keyed by id.
    pub history_messages: HistoryStore,
    /// The validated bearer credential.
    pub api_key: String,
}

impl Client {
    /// Well-formedness of a session: the history's ids are unique and the
    /// credential is well formed.
    pub open spec fn wf(&self) -> bool {
        &&& self.history_messages.wf()
        &&& valid_api_key(self.api_key@)
    }

    /// The view of this session's system message.
    pub open spec fn spec_system(&self) -> MessageView {
        MessageView { role: "system"@, content: self.system_message@ }
    }

    /// A session with everything configured.  Fails fast with a
    /// configuration error on a malformed credential.
    pub fn with_config(
        api_key: String,
        model: String,
        max_token: usize,
        system_message: String,
    ) -> (r: ChatGPTResult<Client>)
        ensures
            valid_api_key(api_key@) ==> (r matches Ok(c) && c.wf() && c.model@ == model@
                && c.max_token == max_token && c.system_message@ == system_message@ && c.api_key@
                == api_key@ && c.history_messages.spec_len() == 0 && (forall|k: Seq<char>|
                !c.history_messages.spec_contains(k))),
            !valid_api_key(api_key@) ==> (r matches Err(e) && e matches ChatGPTError::Config(_)),
    {
        if !check_api_key(api_key.as_str()) {
            return Err(ChatGPTError::Config("malformed api key".to_owned()));
        }
        Ok(
            Client {
                model,
                max_token,
                system_message,
                history_messages: HistoryStore::new(),
                api_key,
            },
        )
    }

    /// A session with the default model, budget and system message.
    pub fn new(api_key: String) -> (r: ChatGPTResult<Client>)
        ensures
            valid_api_key(api_key@) ==> (r matches Ok(c) && c.wf() && c.model@ == "gpt-3.5-turbo"@
                && c.max_token == 4096 && c.system_message@
                == crate::prompt::Prompt::Default.spec_text() && c.api_key@ == api_key@
                && c.history_messages.spec_len() == 0 && (forall|k: Seq<char>|
                !c.history_messages.spec_contains(k))),
            !valid_api_key(api_key@) ==> (r matches Err(e) && e matches ChatGPTError::Config(_)),
    {
        Self::with_config(
            api_key,
            "gpt-3.5-turbo".to_owned(),
            4096,
            crate::prompt::Prompt::Default.text(),
        )
    }

    /// Walk the ancestor chain from `parent_id` and assemble the ordered
    /// context under the token budget: the system message first, the
    /// surviving ancestors oldest first, the new user message last.  An
    /// ancestor is included only while the token count of the concatenated
    /// contents, candidate included, stays within the budget; a missing
    /// parent simply stops the walk.  Where the tokenizer fails on a
    /// candidate's text, the turn fails with a decode error rather than
    /// guessing a count.
    pub fn build_messages(&self, text: String, parent_id: Option<String>) -> (r: ChatGPTResult<
        Vec<Message>,
    >)
        requires
            self.wf(),
        ensures
            walk_output(
                self.history_messages,
                self.spec_system(),
                user_view(text@),
                opt_id_view(parent_id),
                self.max_token as nat,
                r,
            ),
            r matches Ok(msgs) ==> msgs@.len() >= 2 && views_of(msgs@).first()
                == self.spec_system() && views_of(msgs@).last() == user_view(text@),
            parent_id is None ==> (r matches Ok(msgs) && views_of(msgs@) =~= seq![
                self.spec_system(),
                user_view(text@),
            ]),
    {
        let ghost sys = self.spec_system();
        let ghost user = user_view(text@);
        let ghost parent = opt_id_view(parent_id);
        let ghost max = self.max_token as nat;
        let mut messages: Vec<Message> = Vec::new();
        messages.push(Message::system(self.system_message.clone()));
        messages.push(Message::user(text));
        proof {
            assert(walk_messages(Seq::<NodeView>::empty()) =~= Seq::<MessageView>::empty());
            assert(views_of(messages@) =~= context_of(sys, user, Seq::<NodeView>::empty()));
            lemma_context_shape(sys, user, Seq::<NodeView>::empty());
        }
        let mut cursor: String = match parent_id {
            None => {
                proof {
                    let chain = Seq::<NodeView>::empty();
                    assert(built_context(
                        self.history_messages,
                        sys,
                        user,
                        parent,
                        max,
                        chain,
                        views_of(messages@),
                    ));
                }
                let result: ChatGPTResult<Vec<Message>> = Ok(messages);
                    proof {
                        assert(some_built(
                            self.history_messages,
                            sys,
                            user,
                            parent,
                            max,
                            views_of(messages@),
                        ));
                        assert(walk_output(self.history_messages, sys, user, parent, max, result));
                    }
                    return result;
            },
            Some(pid) => pid,
        };
        let ghost mut chain = Seq::<NodeView>::empty();
        let mut steps: usize = self.history_messages.len();
        loop
            invariant
                self.wf(),
                steps + chain.len() == self.history_messages.spec_len(),
                sys == self.spec_system(),
                parent == opt_id_view(parent_id),
                parent is Some,
                user == user_view(text@),
                max == self.max_token as nat,
                is_chain(self.history_messages, parent, chain),
                forall|i: int|
                    0 <= i < chain.len() ==> candidate_fits(
                        sys,
                        user,
                        #[trigger] chain.take(i),
                        chain[i],
                        max,
                    ),
                forall|i: int|
                    0 <= i < chain.len() ==> candidate_counts(
                        sys,
                        user,
                        #[trigger] chain.take(i),
                        chain[i],
                    ),
                cursor_at(parent, chain, chain.len() as int) == Some(cursor@),
                views_of(messages@) == context_of(sys, user, chain),
                messages@.len() == chain.len() + 2,
            decreases steps,
        {
            let looked_up = self.history_messages.get(&cursor);
            match looked_up {
                None => {
                    proof {
                        assert(chain_exhausted(self.history_messages, parent, chain));
                        assert(built_context(
                            self.history_messages,
                            sys,
                            user,
                            parent,
                            max,
                            chain,
                            views_of(messages@),
                        ));
                        lemma_context_shape(sys, user, chain);
                    }
                    let result: ChatGPTResult<Vec<Message>> = Ok(messages);
                    proof {
                        assert(some_built(
                            self.history_messages,
                            sys,
                            user,
                            parent,
                            max,
                            views_of(messages@),
                        ));
                        assert(walk_output(self.history_messages, sys, user, parent, max, result));
                    }
                    return result;
                },
                Some(parent_message) => {
                    let ghost node = parent_message@;
                    let joined = joined_of(&messages);
                    let candidate = joined.concat(parent_message.message.content.as_str());
                    let total_token = match count(candidate.as_str()) {
                        Some(n) => n,
                        None => {
                            proof {
                                assert(candidate@ == candidate_text(sys, user, chain, node));
                                assert(!candidate_counts(sys, user, chain, node));
                                assert(walk_fails(
                                    self.history_messages,
                                    sys,
                                    user,
                                    parent,
                                    max,
                                    chain,
                                ));
                            }
                            let result: ChatGPTResult<Vec<Message>> = Err(
                                ChatGPTError::Decode("token encoding failed".to_owned()),
                            );
                            proof {
                                assert(some_failed(self.history_messages, sys, user, parent, max));
                                assert(walk_output(
                                    self.history_messages,
                                    sys,
                                    user,
                                    parent,
                                    max,
                                    result,
                                ));
                            }
                            return result;
                        },
                    };
                    if total_token > self.max_token {
                        proof {
                            assert(candidate@ == candidate_text(sys, user, chain, node));
                            assert(candidate_counts(sys, user, chain, node));
                            assert(!candidate_fits(sys, user, chain, node, max));
                            assert(built_context(
                                self.history_messages,
                                sys,
                                user,
                                parent,
                                max,
                                chain,
                                views_of(messages@),
                            ));
                            lemma_context_shape(sys, user, chain);
                        }
                        let result: ChatGPTResult<Vec<Message>> = Ok(messages);
                    proof {
                        assert(some_built(
                            self.history_messages,
                            sys,
                            user,
                            parent,
                            max,
                            views_of(messages@),
                        ));
                        assert(walk_output(self.history_messages, sys, user, parent, max, result));
                    }
                    return result;
                    }
                    if steps == 0 {
                        proof {
                            assert(chain.len() == self.history_messages.spec_len());
                            assert(built_context(
                                self.history_messages,
                                sys,
                                user,
                                parent,
                                max,
                                chain,
                                views_of(messages@),
                            ));
                            lemma_context_shape(sys, user, chain);
                        }
                        let result: ChatGPTResult<Vec<Message>> = Ok(messages);
                    proof {
                        assert(some_built(
                            self.history_messages,
                            sys,
                            user,
                            parent,
                            max,
                            views_of(messages@),
                        ));
                        assert(walk_output(self.history_messages, sys, user, parent, max, result));
                    }
                    return result;
                    }
                    steps -= 1;
                    let next_parent: Option<String> = match &parent_message.parent_id {
                        Some(id) => Some(id.clone()),
                        None => None,
                    };
                    let ghost msgs_before = messages@;
                    let inserted = parent_message.message.clone();
                    proof {
                        lemma_views_insert(msgs_before, 1, inserted);
                        lemma_context_insert(sys, user, chain, node);
                    }
                    messages.insert(1, inserted);
                    proof {
                        let new_chain = chain.push(node);
                        assert(views_of(messages@) =~= context_of(sys, user, new_chain));
                        assert forall|i: int|
                            0 <= i < new_chain.len() implies (#[trigger] cursor_at(
                            parent,
                            new_chain,
                            i,
                        )) is Some && self.history_messages.spec_get(
                            cursor_at(parent, new_chain, i)->0,
                        ) == Some(new_chain[i]) by {
                            if i < chain.len() {
                                assert(cursor_at(parent, new_chain, i) == cursor_at(
                                    parent,
                                    chain,
                                    i,
                                ));
                                assert(cursor_at(parent, chain, i) is Some
                                    && self.history_messages.spec_get(
                                    cursor_at(parent, chain, i)->0,
                                ) == Some(chain[i]));
                            } else {
                                assert(cursor_at(parent, new_chain, i) == cursor_at(
                                    parent,
                                    chain,
                                    chain.len() as int,
                                ));
                            }
                        }
                        assert forall|i: int|
                            0 <= i < new_chain.len() implies candidate_fits(
                            sys,
                            user,
                            #[trigger] new_chain.take(i),
                            new_chain[i],
                            max,
                        ) by {
                            if i < chain.len() {
                                assert(new_chain.take(i) =~= chain.take(i));
                                assert(candidate_fits(sys, user, chain.take(i), chain[i], max));
                            } else {
                                assert(new_chain.take(i) =~= chain);
                                assert(candidate@ == joined_contents(context_of(sys, user, chain))
                                    + node.message.content);
                                assert(candidate_fits(sys, user, chain, node, max));
                            }
                        }
                        assert forall|i: int|
                            0 <= i < new_chain.len() implies candidate_counts(
                            sys,
                            user,
                            #[trigger] new_chain.take(i),
                            new_chain[i],
                        ) by {
                            if i < chain.len() {
                                assert(new_chain.take(i) =~= chain.take(i));
                                assert(candidate_counts(sys, user, chain.take(i), chain[i]));
                            } else {
                                assert(new_chain.take(i) =~= chain);
                                assert(candidate_counts(sys, user, chain, node));
                            }
                        }
                        chain = new_chain;
                    }
                    match next_parent {
                        None => {
                            proof {
                                assert(cursor_at(parent, chain, chain.len() as int)
                                    == node.parent_id);
                                assert(chain_exhausted(self.history_messages, parent, chain));
                                assert(built_context(
                                    self.history_messages,
                                    sys,
                                    user,
                                    parent,
                                    max,
                                    chain,
                                    views_of(messages@),
                                ));
                                lemma_context_shape(sys, user, chain);
                            }
                            let result: ChatGPTResult<Vec<Message>> = Ok(messages);
                    proof {
                        assert(some_built(
                            self.history_messages,
                            sys,
                            user,
                            parent,
                            max,
                            views_of(messages@),
                        ));
                        assert(walk_output(self.history_messages, sys, user, parent, max, result));
                    }
                    return result;
                        },
                        Some(id) => {
                            cursor = id;
                            proof {
                                assert(cursor_at(parent, chain, chain.len() as int) == Some(
                                    cursor@,
                                ));
                            }
                        },
                    }
                },
            }
        }
    }
}

/// Whether a response offers no answer alternative: the field is absent or
/// the sequence is empty.
pub open spec fn no_choice(resp: ChatResponse) -> bool {
    ||| resp.choices is None
    ||| resp.choices->0@.len() == 0
}

/// Relies on `uuid::Uuid::new_v4` and its `Display` impl: draws a random
/// identifier and formats it.  The result depends on the draw, so nothing is
/// promised of it.
#[verifier::external_body]
fn new_request_id() -> String {
    uuid::Uuid::new_v4().to_string()
}

impl Client {
    /// Assemble the request body for a new turn; fails as the context walk
    /// fails.
    pub fn build_request(&self, text: String, parent_id: Option<String>, stream: Option<
        bool,
    >) -> (r: ChatGPTResult<ChatRequest>)
        requires
            self.wf(),
        ensures
            request_output(
                self.history_messages,
                self.spec_system(),
                user_view(text@),
                opt_id_view(parent_id),
                self.max_token as nat,
                self.model@,
                stream,
                r,
            ),
            parent_id is None ==> r is Ok,
    {
        let ghost sys = self.spec_system();
        let ghost user = user_view(text@);
        let ghost parent = opt_id_view(parent_id);
        let ghost max = self.max_token as nat;
        let messages = match self.build_messages(text, parent_id) {
            Ok(messages) => messages,
            Err(e) => {
                let result: ChatGPTResult<ChatRequest> = Err(e);
                proof {
                    assert(request_output(
                        self.history_messages,
                        sys,
                        user,
                        parent,
                        max,
                        self.model@,
                        stream,
                        result,
                    ));
                }
                return result;
            },
        };
        let r = ChatRequest { model: self.model.clone(), messages, stream };
        proof {
            let c = choose|chain: Seq<NodeView>|
                built_context(
                    self.history_messages,
                    sys,
                    user,
                    parent,
                    max,
                    chain,
                    views_of(messages@),
                );
            assert(built_context(
                self.history_messages,
                sys,
                user,
                parent,
                max,
                c,
                views_of(r.messages@),
            ));
            assert(some_built(
                self.history_messages,
                sys,
                user,
                parent,
                max,
                views_of(r.messages@),
            ));
        }
        let result: ChatGPTResult<ChatRequest> = Ok(r);
        proof {
            assert(request_output(
                self.history_messages,
                sys,
                user,
                parent,
                max,
                self.model@,
                stream,
                result,
            ));
        }
        result
    }

    /// Finish a non-streaming turn from a decoded response, recording the
    /// exchange under the given fresh id.  On any failure the history is left
    /// exactly as it was; on success exactly two nodes are recorded: the
    /// submitted user text under `fresh_id` with the caller's parent, and the
    /// first answer under the response id with the user node as parent.
    pub fn complete_send_with_id(
        &mut self,
        text: String,
        parent_id: Option<String>,
        resp: ChatResponse,
        fresh_id: String,
    ) -> (r: ChatGPTResult<(String, String)>)
        requires
            old(self).wf(),
        ensures
            final(self).wf(),
            final(self).model == old(self).model,
            final(self).max_token == old(self).max_token,
            final(self).system_message == old(self).system_message,
            final(self).api_key == old(self).api_key,
            resp.error is Some ==> *final(self) == *old(self) && (r matches Err(e) && e matches
                ChatGPTError::Api(m) && m@ == resp.error->0.message@),
            resp.error is None && no_choice(resp) ==> *final(self) == *old(self) && (r matches
                Err(e) && e matches ChatGPTError::Protocol(m) && m@ == "no choices returned"@),
            resp.error is None && !no_choice(resp) && resp.id is None ==> *final(self) == *old(self) && (r matches Err(e) && e matches ChatGPTError::Protocol(m) && m@
                == "no response id"@),
            resp.error is None && !no_choice(resp) && resp.id is Some ==> {
                let user_node = NodeView {
                    id: fresh_id@,
                    parent_id: opt_id_view(parent_id),
                    message: user_view(text@),
                };
                let answer_node = NodeView {
                    id: resp.id->0@,
                    parent_id: Some(fresh_id@),
                    message: resp.choices->0@[0].message@,
                };
                &&& r matches Ok(p) && p.0@ == resp.choices->0@[0].message.content@ && p.1@
                    == resp.id->0@
                &&& final(self).history_messages.spec_get(resp.id->0@) == Some(answer_node)
                &&& resp.id->0@ != fresh_id@ ==> final(self).history_messages.spec_get(fresh_id@)
                    == Some(user_node)
                &&& forall|k: Seq<char>|
                    k != fresh_id@ && k != resp.id->0@
                        ==> final(self).history_messages.spec_get(k) == old(self).history_messages.spec_get(k)
                &&& forall|k: Seq<char>|
                    k != fresh_id@ && k != resp.id->0@
                        ==> final(self).history_messages.spec_contains(k) == old(self).history_messages.spec_contains(k)
                &&& !old(self).history_messages.spec_contains(fresh_id@) && !old(self).history_messages.spec_contains(resp.id->0@) && fresh_id@ != resp.id->0@ ==> final(self).history_messages.spec_len() == old(self).history_messages.spec_len() + 2
            },
    {
        if let Some(err) = resp.error {
            return Err(ChatGPTError::Api(err.message));
        }
        let choices = match resp.choices {
            None => {
                return Err(ChatGPTError::Protocol("no choices returned".to_owned()));
            },
            Some(choices) => choices,
        };
        if choices.len() == 0 {
            return Err(ChatGPTError::Protocol("no choices returned".to_owned()));
        }
        let resp_id = match resp.id {
            None => {
                return Err(ChatGPTError::Protocol("no response id".to_owned()));
            },
            Some(id) => id,
        };
        let answer = choices[0].message.clone();
        let content = answer.content.clone();
        self.history_messages.insert(
            HistoryMessage {
                id: fresh_id.clone(),
                parent_id,
                message: Message::user(text),
            },
        );
        self.history_messages.insert(
            HistoryMessage {
                id: resp_id.clone(),
                parent_id: Some(fresh_id),
                message: answer,
            },
        );
        Ok((content, resp_id))
    }

    /// Finish a non-streaming turn from a decoded response, drawing a fresh
    /// id for the user node.  Behaves as `complete_send_with_id` for some
    /// fresh id.
    pub fn complete_send(
        &mut self,
        text: String,
        parent_id: Option<String>,
        resp: ChatResponse,
    ) -> (r: ChatGPTResult<(String, String)>)
        requires
            old(self).wf(),
        ensures
            final(self).wf(),
            final(self).model == old(self).model,
            final(self).max_token == old(self).max_token,
            final(self).system_message == old(self).system_message,
            final(self).api_key == old(self).api_key,
            resp.error is Some ==> *final(self) == *old(self) && (r matches Err(e) && e matches
                ChatGPTError::Api(m) && m@ == resp.error->0.message@),
            resp.error is None && no_choice(resp) ==> *final(self) == *old(self) && (r matches
                Err(e) && e matches ChatGPTError::Protocol(m) && m@ == "no choices returned"@),
            resp.error is None && !no_choice(resp) && resp.id is None ==> *final(self) == *old(self) && (r matches Err(e) && e matches ChatGPTError::Protocol(m) && m@
                == "no response id"@),
            resp.error is None && !no_choice(resp) && resp.id is Some ==> {
                &&& r matches Ok(p) && p.0@ == resp.choices->0@[0].message.content@ && p.1@
                    == resp.id->0@
                &&& exists|fresh: Seq<char>|
                    {
                        let user_node = NodeView {
                            id: fresh,
                            parent_id: opt_id_view(parent_id),
                            message: user_view(text@),
                        };
                        let answer_node = NodeView {
                            id: resp.id->0@,
                            parent_id: Some(fresh),
                            message: resp.choices->0@[0].message@,
                        };
                        &&& final(self).history_messages.spec_get(resp.id->0@) == Some(
                            answer_node,
                        )
                        &&& resp.id->0@ != fresh ==> #[trigger] final(self).history_messages.spec_get(fresh) == Some(user_node)
                        &&& forall|k: Seq<char>|
                            k != fresh && k != resp.id->0@
                                ==> final(self).history_messages.spec_get(k) == old(self).history_messages.spec_get(k)
                        &&& !old(self).history_messages.spec_contains(fresh) && !old(
                            self,
                        ).history_messages.spec_contains(resp.id->0@) && fresh != resp.id->0@
                            ==> final(self).history_messages.spec_len() == old(
                            self,
                        ).history_messages.spec_len() + 2
                    }
            },
    {
        let fresh_id = new_request_id();
        let ghost fresh = fresh_id@;
        let r = self.complete_send_with_id(text, parent_id, resp, fresh_id);
        proof {
            if resp.error is None && !no_choice(resp) && resp.id is Some {
                let user_node = NodeView {
                    id: fresh,
                    parent_id: opt_id_view(parent_id),
                    message: user_view(text@),
                };
                let answer_node = NodeView {
                    id: resp.id->0@,
                    parent_id: Some(fresh),
                    message: resp.choices->0@[0].message@,
                };
                assert(final(self).history_messages.spec_get(resp.id->0@) == Some(answer_node));
                assert(final(self).history_messages.spec_get(fresh) is Some);
            }
        }
        r
    }
}

/// The shape every built context has: the system message first, the new user
/// message last, one message between them for each included ancestor.
pub proof fn lemma_context_shape(sys: MessageView, user: MessageView, chain: Seq<NodeView>)
    ensures
        context_of(sys, user, chain).len() == chain.len() + 2,
        context_of(sys, user, chain).first() == sys,
        context_of(sys, user, chain).last() == user,
{
    lemma_walk_messages_len(chain);
}

/// The walk is forced step by step: wherever two chains both follow the
/// lookups from the same parent, they agree position by position.
proof fn lemma_chain_agree_at(
    store: HistoryStore,
    parent: Option<Seq<char>>,
    c1: Seq<NodeView>,
    c2: Seq<NodeView>,
    j: int,
)
    requires
        is_chain(store, parent, c1),
        is_chain(store, parent, c2),
        0 <= j < c1.len(),
        j < c2.len(),
    ensures
        cursor_at(parent, c1, j) == cursor_at(parent, c2, j),
        c1[j] == c2[j],
    decreases j,
{
    if j > 0 {
        lemma_chain_agree_at(store, parent, c1, c2, j - 1);
    }
}

/// A run of the walk cannot stop while another run of the same walk goes on:
/// no chain the walk could still extend is longer than the run's own chain.
proof fn lemma_run_is_longest(
    store: HistoryStore,
    sys: MessageView,
    user: MessageView,
    parent: Option<Seq<char>>,
    max: nat,
    c1: Seq<NodeView>,
    r1: Seq<MessageView>,
    c2: Seq<NodeView>,
)
    requires
        built_context(store, sys, user, parent, max, c1, r1),
        is_chain(store, parent, c2),
        c2.len() <= store.spec_len(),
        forall|i: int|
            0 <= i < c2.len() ==> candidate_fits(sys, user, #[trigger] c2.take(i), c2[i], max),
        forall|i: int|
            0 <= i < c2.len() ==> candidate_counts(sys, user, #[trigger] c2.take(i), c2[i]),
    ensures
        c2.len() <= c1.len(),
{
    if c1.len() < c2.len() {
        let n = c1.len() as int;
        assert forall|j: int| 0 <= j < n implies c1[j] == c2[j] by {
            lemma_chain_agree_at(store, parent, c1, c2, j);
        }
        assert(c1 =~= c2.take(n));
        assert(cursor_at(parent, c2, n) is Some && store.spec_get(cursor_at(parent, c2, n)->0)
            == Some(c2[n]));
        assert(cursor_at(parent, c1, n) == cursor_at(parent, c2, n)) by {
            if n > 0 {
                assert(c1[n - 1] == c2[n - 1]);
            }
        }
        assert(!chain_exhausted(store, parent, c1));
        assert(candidate_fits(sys, user, c2.take(n), c2[n], max));
        assert(candidate_counts(sys, user, c2.take(n), c2[n]));
        assert(!walk_stops(store, parent, c1, sys, user, max));
        assert(c1.len() == store.spec_len());
        assert(false);
    }
}

/// The budgeted walk is deterministic: over one store, system message, user
/// message, parent and budget there is exactly one run, so exactly one built
/// context.
pub proof fn lemma_built_context_unique(
    store: HistoryStore,
    sys: MessageView,
    user: MessageView,
    parent: Option<Seq<char>>,
    max: nat,
    c1: Seq<NodeView>,
    r1: Seq<MessageView>,
    c2: Seq<NodeView>,
    r2: Seq<MessageView>,
)
    requires
        built_context(store, sys, user, parent, max, c1, r1),
        built_context(store, sys, user, parent, max, c2, r2),
    ensures
        c1 == c2,
        r1 == r2,
{
    lemma_run_is_longest(store, sys, user, parent, max, c1, r1, c2);
    lemma_run_is_longest(store, sys, user, parent, max, c2, r2, c1);
    assert forall|j: int| 0 <= j < c1.len() implies c1[j] == c2[j] by {
        lemma_chain_agree_at(store, parent, c1, c2, j);
    }
    assert(c1 =~= c2);
}

/// For an ancestor chain the walk can run to its end — every lookup
/// resolves, the chain ends, and the cumulative token count of every prefix,
/// candidate included, stays within the budget — the built context is the
/// whole chain between the system and the user message, in chronological
/// order: length `chain.len() + 2`, with the most distant ancestor right
/// after the system message.
pub proof fn lemma_full_chain_included(
    store: HistoryStore,
    sys: MessageView,
    user: MessageView,
    parent: Option<Seq<char>>,
    max: nat,
    chain: Seq<NodeView>,
    built_chain: Seq<NodeView>,
    result: Seq<MessageView>,
)
    requires
        built_context(store, sys, user, parent, max, built_chain, result),
        is_chain(store, parent, chain),
        chain.len() <= store.spec_len(),
        chain_exhausted(store, parent, chain),
        forall|i: int|
            0 <= i < chain.len() ==> candidate_fits(sys, user, #[trigger] chain.take(i), chain[i], max),
        forall|i: int|
            0 <= i < chain.len() ==> candidate_counts(sys, user, #[trigger] chain.take(i), chain[i]),
    ensures
        built_chain == chain,
        result == context_of(sys, user, chain),
        result.len() == chain.len() + 2,
        result.first() == sys,
        result.last() == user,
        forall|i: int|
            0 <= i < chain.len() ==> #[trigger] result[1 + i] == chain[chain.len() - 1
                - i].message,
{
    assert(built_context(store, sys, user, parent, max, chain, context_of(sys, user, chain)));
    lemma_built_context_unique(
        store,
        sys,
        user,
        parent,
        max,
        built_chain,
        result,
        chain,
        context_of(sys, user, chain),
    );
    lemma_context_shape(sys, user, chain);
    assert forall|i: int|
        0 <= i < chain.len() implies #[trigger] result[1 + i] == chain[chain.len() - 1
        - i].message by {
        lemma_walk_messages_index(chain, i);
        assert(result[1 + i] == walk_messages(chain)[i]);
    }
}

/// If including the ancestor at depth `k` would push the cumulative token
/// count over the budget while every closer ancestor fit, the walk includes
/// exactly the first `k` ancestors and drops the one at depth `k` together
/// with everything beyond it.
pub proof fn lemma_budget_truncates(
    store: HistoryStore,
    sys: MessageView,
    user: MessageView,
    parent: Option<Seq<char>>,
    max: nat,
    chain: Seq<NodeView>,
    k: int,
    built_chain: Seq<NodeView>,
    result: Seq<MessageView>,
)
    requires
        built_context(store, sys, user, parent, max, built_chain, result),
        is_chain(store, parent, chain),
        0 <= k < chain.len(),
        k <= store.spec_len(),
        forall|i: int|
            0 <= i < k ==> candidate_fits(sys, user, #[trigger] chain.take(i), chain[i], max),
        forall|i: int|
            0 <= i <= k ==> candidate_counts(sys, user, #[trigger] chain.take(i), chain[i]),
        !candidate_fits(sys, user, chain.take(k), chain[k], max),
    ensures
        built_chain == chain.take(k),
        result == context_of(sys, user, chain.take(k)),
        result.len() == k + 2,
{
    let pre = chain.take(k);
    assert forall|i: int|
        0 <= i < pre.len() implies (#[trigger] cursor_at(parent, pre, i)) is Some
        && store.spec_get(cursor_at(parent, pre, i)->0) == Some(pre[i]) by {
        assert(cursor_at(parent, pre, i) == cursor_at(parent, chain, i));
        assert(cursor_at(parent, chain, i) is Some && store.spec_get(
            cursor_at(parent, chain, i)->0,
        ) == Some(chain[i]));
    }
    assert forall|i: int|
        0 <= i < pre.len() implies candidate_fits(sys, user, #[trigger] pre.take(i), pre[i], max) by {
        assert(pre.take(i) =~= chain.take(i));
        assert(candidate_fits(sys, user, chain.take(i), chain[i], max));
    }
    assert forall|i: int|
        0 <= i < pre.len() implies candidate_counts(sys, user, #[trigger] pre.take(i), pre[i]) by {
        assert(pre.take(i) =~= chain.take(i));
        assert(candidate_counts(sys, user, chain.take(i), chain[i]));
    }
    assert(candidate_counts(sys, user, chain.take(k), chain[k]));
    assert(pre =~= chain.take(k));
    assert(cursor_at(parent, pre, k) == cursor_at(parent, chain, k)) by {
        if k > 0 {
            assert(pre[k - 1] == chain[k - 1]);
        }
    }
    assert(cursor_at(parent, chain, k) is Some && store.spec_get(cursor_at(parent, chain, k)->0)
        == Some(chain[k]));
    assert(walk_stops(store, parent, pre, sys, user, max));
    assert(built_context(store, sys, user, parent, max, pre, context_of(sys, user, pre)));
    lemma_built_context_unique(
        store,
        sys,
        user,
        parent,
        max,
        built_chain,
        result,
        pre,
        context_of(sys, user, pre),
    );
    lemma_context_shape(sys, user, pre);
}

} // verus!
