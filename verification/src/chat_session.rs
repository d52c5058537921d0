//! Chat sessions: what a stored session holds after it is saved, after
//! messages are appended to it and after it is renamed, and which sessions a
//! listing shows. Reading and writing the store is the caller's business.

use vstd::prelude::*;
use vstd::string::StringExecFns;
use crate::ordering::{
    is_ranked, is_text_before, lemma_stable_sorted_is_ranked, lemma_text_before_total,
    lemma_text_order_is_linear, ranks_are_linear, stable_sort, stable_sorted, text_before, Ranked,
};
use crate::text::{chars_of, clone_text, opt_text, same_text, string_of, substring};
use crate::textmap::TextMap;

verus! {

/// The number of characters of a message that its preview shows.
pub const PREVIEW_CHARS: usize = 100;

/// A chat message.
#[derive(Clone, Debug, PartialEq, Eq)]
pub struct ChatMessage {
    pub id: String,
    pub role: String,
    pub content: String,
    pub timestamp: String,
    pub files: Option<Vec<String>>,
    pub model: Option<String>,
    pub session_id: Option<String>,
    pub workspace_id: Option<String>,
}

/// A chat session as it is stored.
#[derive(Debug)]
pub struct ChatSession {
    pub id: String,
    pub name: Option<String>,
    pub session_id: Option<String>,
    pub workspace_id: Option<String>,
    pub messages: Vec<ChatMessage>,
    pub created_at: String,
    pub updated_at: String,
    pub message_count: usize,
    pub first_message_preview: String,
    /// The task id that each command-line tool last worked under.
    pub code_cli_task_ids: TextMap<String>,
}

/// The preview of a message: its first hundred characters, followed by
/// three dots if it has more.
pub open spec fn preview_of(content: Seq<char>) -> Seq<char> {
    if content.len() > PREVIEW_CHARS {
        content.take(PREVIEW_CHARS as int) + "..."@
    } else {
        content
    }
}

/// The preview of a session: that of its first message, and nothing for a
/// session without messages.
pub open spec fn first_preview(messages: Seq<ChatMessage>) -> Seq<char> {
    if messages.len() == 0 {
        Seq::empty()
    } else {
        preview_of(messages[0].content@)
    }
}

/// Cuts a message down to its preview.
pub fn preview(content: &str) -> (out: String)
    ensures
        out@ == preview_of(content@),
{
    let v = chars_of(content);
    if v.len() > PREVIEW_CHARS {
        let mut out = substring(&v, 0, PREVIEW_CHARS);
        out.append("...");
        assert(v@.subrange(0, PREVIEW_CHARS as int) == v@.take(PREVIEW_CHARS as int));
        out
    } else {
        string_of(&v)
    }
}

/// The preview of the first of `messages`.
pub fn first_message_preview(messages: &Vec<ChatMessage>) -> (out: String)
    ensures
        out@ == first_preview(messages@),
{
    if messages.len() == 0 {
        String::new()
    } else {
        preview(messages[0].content.as_str())
    }
}

/// `chrono::Local::now` reads the clock, and `to_rfc3339` writes the time
/// in the RFC 3339 form with the local offset. Nothing is claimed of the
/// text: it depends on the moment and on the machine's time zone.
#[verifier::external_body]
fn local_now() -> (now: String) {
    chrono::Local::now().to_rfc3339()
}

/// What a session holds after it was saved at the time `now`.
///
/// It holds what was given: id, name, workspace and messages, with the
/// number of the messages and the preview of the first. It was last updated
/// at `now`. From the stored session `existing`, if there is one, it keeps
/// the time of creation and the agent session; a new session was created at
/// `now` and has its own id for agent session. Its task ids are the given
/// ones, or none.
pub open spec fn is_saved(
    session: ChatSession,
    session_id: Seq<char>,
    name: Option<String>,
    workspace_id: Option<String>,
    messages: Vec<ChatMessage>,
    task_ids: Map<Seq<char>, String>,
    existing: Option<ChatSession>,
    now: Seq<char>,
) -> bool {
    &&& session.id@ == session_id
    &&& session.name == name
    &&& session.workspace_id == workspace_id
    &&& session.messages == messages
    &&& session.message_count == messages@.len()
    &&& session.first_message_preview@ == first_preview(messages@)
    &&& session.updated_at@ == now
    &&& session.created_at@ == (match existing {
        Some(e) => e.created_at@,
        None => now,
    })
    &&& opt_text(session.session_id) == Some(
        match existing {
            Some(e) => match e.session_id {
                Some(s) => s@,
                None => session_id,
            },
            None => session_id,
        },
    )
    &&& session.code_cli_task_ids@ == task_ids
    &&& session.code_cli_task_ids.wf()
}

/// The stored session that a reference stands for.
pub open spec fn stored(existing: Option<&ChatSession>) -> Option<ChatSession> {
    match existing {
        Some(e) => Some(*e),
        None => None,
    }
}

/// The task ids that are given, as a map.
pub open spec fn given_task_ids(task_ids: Option<TextMap<String>>) -> Map<Seq<char>, String> {
    match task_ids {
        Some(m) => m@,
        None => Map::empty(),
    }
}

/// Builds the session that is stored when a session is saved at `now`.
pub fn build_session(
    session_id: &str,
    name: Option<String>,
    workspace_id: Option<String>,
    messages: Vec<ChatMessage>,
    code_cli_task_ids: Option<TextMap<String>>,
    existing: Option<&ChatSession>,
    now: String,
) -> (session: ChatSession)
    requires
        code_cli_task_ids matches Some(m) ==> m.wf(),
    ensures
        is_saved(
            session,
            session_id@,
            name,
            workspace_id,
            messages,
            given_task_ids(code_cli_task_ids),
            stored(existing),
            now@,
        ),
{
    let (created_at, agent_session) = match existing {
        Some(e) => (
            e.created_at.clone(),
            match &e.session_id {
                Some(s) => s.clone(),
                None => session_id.to_owned(),
            },
        ),
        None => (now.clone(), session_id.to_owned()),
    };
    let first_message_preview = first_message_preview(&messages);
    let message_count = messages.len();
    ChatSession {
        id: session_id.to_owned(),
        name,
        session_id: Some(agent_session),
        workspace_id,
        messages,
        created_at,
        updated_at: now,
        message_count,
        first_message_preview,
        code_cli_task_ids: match code_cli_task_ids {
            Some(m) => m,
            None => TextMap::new(),
        },
    }
}

/// Saves a session: builds what is stored for it, at the present time. A
/// session without id cannot be saved.
pub fn save_session(
    session_id: Option<String>,
    name: Option<String>,
    workspace_id: Option<String>,
    messages: Vec<ChatMessage>,
    code_cli_task_ids: Option<TextMap<String>>,
    existing: Option<&ChatSession>,
) -> (saved: Result<ChatSession, String>)
    requires
        code_cli_task_ids matches Some(m) ==> m.wf(),
    ensures
        session_id is None ==> (saved matches Err(text) && text@ == "Session ID is required"@),
        session_id is Some ==> (saved matches Ok(session) && exists|now: Seq<char>| #[trigger]
            is_saved(
                session,
                session_id->0@,
                name,
                workspace_id,
                messages,
                given_task_ids(code_cli_task_ids),
                stored(existing),
                now,
            )),
{
    let id = match session_id {
        Some(id) => id,
        None => {
            return Err("Session ID is required".to_owned());
        },
    };
    let now = local_now();
    let ghost at = now@;
    let session = build_session(
        id.as_str(),
        name,
        workspace_id,
        messages,
        code_cli_task_ids,
        existing,
        now,
    );
    assert(is_saved(
        session,
        id@,
        name,
        workspace_id,
        messages,
        given_task_ids(code_cli_task_ids),
        stored(existing),
        at,
    ));
    Ok(session)
}

/// The workspace of the first of `messages`, if it has one.
pub open spec fn first_workspace(messages: Seq<ChatMessage>) -> Option<String> {
    if messages.len() == 0 {
        None
    } else {
        messages[0].workspace_id
    }
}

/// What a session holds after `added` was appended to the stored session
/// `existing` at the time `now`.
///
/// It keeps the name, the workspace, the agent session, the time of
/// creation and the messages of the stored session and holds the appended
/// messages behind them. Without a stored session it is new: it has no name,
/// the workspace of the first appended message, its own id for agent session
/// and `now` for time of creation. Where both a tool and a task id are
/// given, the tool's task id is set to the given one.
pub open spec fn is_appended(
    session: ChatSession,
    existing: Option<ChatSession>,
    session_id: Seq<char>,
    added: Seq<ChatMessage>,
    code_cli: Option<String>,
    code_cli_task_id: Option<String>,
    now: Seq<char>,
) -> bool {
    let old_messages = match existing {
        Some(e) => e.messages@,
        None => Seq::empty(),
    };
    let old_ids = match existing {
        Some(e) => e.code_cli_task_ids@,
        None => Map::empty(),
    };
    &&& session.id@ == session_id
    &&& opt_text(session.name) == (match existing {
        Some(e) => opt_text(e.name),
        None => None,
    })
    &&& opt_text(session.workspace_id) == (match existing {
        Some(e) => opt_text(e.workspace_id),
        None => opt_text(first_workspace(added)),
    })
    &&& session.messages@ == old_messages + added
    &&& session.message_count == session.messages@.len()
    &&& session.first_message_preview@ == first_preview(session.messages@)
    &&& session.updated_at@ == now
    &&& session.created_at@ == (match existing {
        Some(e) => e.created_at@,
        None => now,
    })
    &&& opt_text(session.session_id) == Some(
        match existing {
            Some(e) => match e.session_id {
                Some(s) => s@,
                None => session_id,
            },
            None => session_id,
        },
    )
    &&& session.code_cli_task_ids.wf()
    &&& session.code_cli_task_ids@ == (if code_cli is Some && code_cli_task_id is Some {
        old_ids.insert(code_cli->0@, code_cli_task_id->0)
    } else {
        old_ids
    })
}

/// Appends messages to a stored session, or to a new one where none is
/// stored, at the time `now`.
pub fn append_messages(
    existing: Option<ChatSession>,
    session_id: &str,
    messages: Vec<ChatMessage>,
    code_cli: Option<String>,
    code_cli_task_id: Option<String>,
    now: String,
) -> (session: ChatSession)
    requires
        existing matches Some(e) ==> e.code_cli_task_ids.wf(),
    ensures
        is_appended(session, existing, session_id@, messages@, code_cli, code_cli_task_id, now@),
{
    let mut messages = messages;
    let ghost added = messages@;
    let mut session = match existing {
        Some(e) => e,
        None => ChatSession {
            id: session_id.to_owned(),
            name: None,
            session_id: Some(session_id.to_owned()),
            workspace_id: if messages.len() > 0 {
                clone_text(&messages[0].workspace_id)
            } else {
                None
            },
            messages: Vec::new(),
            created_at: now.clone(),
            updated_at: now.clone(),
            message_count: 0,
            first_message_preview: String::new(),
            code_cli_task_ids: TextMap::new(),
        },
    };
    let ghost started = session;
    let mut all = session.messages;
    all.append(&mut messages);
    let mut task_ids = session.code_cli_task_ids;
    match (code_cli, code_cli_task_id) {
        (Some(cli), Some(task_id)) => {
            task_ids.insert(cli, task_id);
        },
        _ => {},
    }
    let first_message_preview = first_message_preview(&all);
    let message_count = all.len();
    ChatSession {
        id: session_id.to_owned(),
        name: session.name,
        session_id: Some(
            match session.session_id {
                Some(s) => s,
                None => session_id.to_owned(),
            },
        ),
        workspace_id: session.workspace_id,
        messages: all,
        created_at: session.created_at,
        updated_at: now,
        message_count,
        first_message_preview,
        code_cli_task_ids: task_ids,
    }
}

/// Appends messages to a stored session at the present time.
pub fn append_message_to_session(
    existing: Option<ChatSession>,
    session_id: &str,
    messages: Vec<ChatMessage>,
    code_cli: Option<String>,
    code_cli_task_id: Option<String>,
) -> (session: ChatSession)
    requires
        existing matches Some(e) ==> e.code_cli_task_ids.wf(),
    ensures
        exists|now: Seq<char>| #[trigger]
            is_appended(session, existing, session_id@, messages@, code_cli, code_cli_task_id, now),
{
    let now = local_now();
    let ghost at = now@;
    let session = append_messages(existing, session_id, messages, code_cli, code_cli_task_id, now);
    assert(is_appended(session, existing, session_id@, messages@, code_cli, code_cli_task_id, at));
    session
}

/// Renames a session at the time `now`: nothing else changes but the time
/// of the last update.
pub fn rename_session(session: ChatSession, name: String, now: String) -> (renamed: ChatSession)
    ensures
        renamed.name == Some(name),
        renamed.updated_at == now,
        renamed.id == session.id,
        renamed.session_id == session.session_id,
        renamed.workspace_id == session.workspace_id,
        renamed.messages == session.messages,
        renamed.created_at == session.created_at,
        renamed.message_count == session.message_count,
        renamed.first_message_preview == session.first_message_preview,
        renamed.code_cli_task_ids == session.code_cli_task_ids,
{
    let mut renamed = session;
    renamed.name = Some(name);
    renamed.updated_at = now;
    renamed
}

/// Renames a session at the present time.
pub fn update_session_name(session: ChatSession, name: String) -> (renamed: ChatSession)
    ensures
        renamed.name == Some(name),
        renamed.id == session.id,
        renamed.session_id == session.session_id,
        renamed.workspace_id == session.workspace_id,
        renamed.messages == session.messages,
        renamed.created_at == session.created_at,
        renamed.message_count == session.message_count,
        renamed.first_message_preview == session.first_message_preview,
        renamed.code_cli_task_ids == session.code_cli_task_ids,
{
    rename_session(session, name, local_now())
}

impl Ranked for ChatSession {
    /// The session that was updated later ranks first.
    open spec fn before(&self, other: &Self) -> bool {
        text_before(other.updated_at@, self.updated_at@)
    }

    fn ranks_before(&self, other: &Self) -> (b: bool) {
        is_text_before(&chars_of(other.updated_at.as_str()), &chars_of(self.updated_at.as_str()))
    }
}

/// The ranks of sessions form a line.
pub proof fn lemma_session_ranks_are_linear()
    ensures
        ranks_are_linear::<ChatSession>(),
{
    assert forall|a: ChatSession, b: ChatSession| #[trigger] a.before(&b) implies !b.before(&a) by {
        lemma_text_before_total(a.updated_at@, b.updated_at@);
    }
    assert forall|a: ChatSession, b: ChatSession, c: ChatSession|
        !(#[trigger] a.before(&b)) && !(#[trigger] b.before(&c)) implies !a.before(&c) by {
        lemma_text_order_is_linear(c.updated_at@, b.updated_at@, a.updated_at@);
    }
}

/// The session belongs to the workspace `workspace_id`.
pub open spec fn in_workspace(session: ChatSession, workspace_id: Seq<char>) -> bool {
    opt_text(session.workspace_id) == Some(workspace_id)
}

/// The sessions of `sessions` that belong to `workspace_id`, in order.
pub open spec fn of_workspace(sessions: Seq<ChatSession>, workspace_id: Seq<char>) -> Seq<
    ChatSession,
>
    decreases sessions.len(),
{
    if sessions.len() == 0 {
        Seq::empty()
    } else if in_workspace(sessions.last(), workspace_id) {
        of_workspace(sessions.drop_last(), workspace_id).push(sessions.last())
    } else {
        of_workspace(sessions.drop_last(), workspace_id)
    }
}

/// The first `limit` items of `s`, or all of them where there are no more or
/// where there is no limit.
pub open spec fn first_items<T>(s: Seq<T>, limit: Option<usize>) -> Seq<T> {
    match limit {
        Some(n) => if s.len() > n {
            s.take(n as int)
        } else {
            s
        },
        None => s,
    }
}

/// The sessions that a listing of a workspace shows: those of the
/// workspace, the one updated last first, and no more than `limit`.
pub open spec fn listing(
    sessions: Seq<ChatSession>,
    workspace_id: Seq<char>,
    limit: Option<usize>,
) -> Seq<ChatSession> {
    first_items(stable_sorted(of_workspace(sessions, workspace_id)), limit)
}

/// Picks the sessions that a listing of the workspace `workspace_id` shows
/// from all stored sessions.
pub fn load_all_sessions(sessions: Vec<ChatSession>, workspace_id: &str, limit: Option<usize>) -> (shown:
    Vec<ChatSession>)
    ensures
        shown@ == listing(sessions@, workspace_id@, limit),
        is_ranked(shown@),
        forall|i: int| 0 <= i < shown@.len() ==> in_workspace(#[trigger] shown@[i], workspace_id@),
        limit matches Some(n) ==> shown@.len() <= n,
{
    let mut kept = sessions;
    let ghost all = kept@;
    let mut i: usize = 0;
    let ghost mut seen: int = 0;
    assert(all.take(0) =~= Seq::<ChatSession>::empty());
    assert(all.skip(0) =~= all);
    while i < kept.len()
        invariant
            i <= kept.len(),
            0 <= seen <= all.len(),
            kept@ == of_workspace(all.take(seen), workspace_id@) + all.skip(seen),
            i == of_workspace(all.take(seen), workspace_id@).len(),
        decreases kept.len() - i,
    {
        proof {
            assert(kept@[i as int] == all.skip(seen)[0]);
            assert(all.take(seen + 1).drop_last() == all.take(seen));
            assert(all.take(seen + 1).last() == all[seen]);
        }
        let keep = match &kept[i].workspace_id {
            Some(w) => same_text(w.as_str(), workspace_id),
            None => false,
        };
        if keep {
            proof {
                assert(kept@ =~= of_workspace(all.take(seen + 1), workspace_id@) + all.skip(
                    seen + 1,
                ));
            }
            i += 1;
        } else {
            kept.remove(i);
            proof {
                assert(kept@ =~= of_workspace(all.take(seen + 1), workspace_id@) + all.skip(
                    seen + 1,
                ));
            }
        }
        proof {
            seen = seen + 1;
        }
    }
    proof {
        assert(all.skip(seen).len() == 0);
        assert(all.take(seen) == all);
        assert(kept@ =~= of_workspace(all, workspace_id@));
    }
    proof {
        lemma_session_ranks_are_linear();
        lemma_stable_sorted_is_ranked(kept@);
        lemma_of_workspace(all, workspace_id@);
        lemma_sorted_stays_in_workspace(kept@, workspace_id@);
    }
    stable_sort(&mut kept);
    let ghost sorted = kept@;
    if let Some(n) = limit {
        if kept.len() > n {
            kept.truncate(n);
            proof {
                assert forall|i: int, j: int|
                    #![trigger kept@[i], kept@[j]]
                    0 <= i < j < kept@.len() implies !kept@[j].before(&kept@[i]) by {
                    assert(kept@[i] == sorted[i]);
                    assert(kept@[j] == sorted[j]);
                }
            }
        }
    }
    proof {
        assert forall|i: int| 0 <= i < kept@.len() implies in_workspace(
            #[trigger] kept@[i],
            workspace_id@,
        ) by {
            assert(kept@[i] == sorted[i]);
        }
    }
    kept
}

/// Every session that is picked for a workspace belongs to it.
proof fn lemma_of_workspace(sessions: Seq<ChatSession>, workspace_id: Seq<char>)
    ensures
        forall|i: int|
            0 <= i < of_workspace(sessions, workspace_id).len() ==> in_workspace(
                #[trigger] of_workspace(sessions, workspace_id)[i],
                workspace_id,
            ),
    decreases sessions.len(),
{
    if sessions.len() > 0 {
        let init = of_workspace(sessions.drop_last(), workspace_id);
        let out = of_workspace(sessions, workspace_id);
        lemma_of_workspace(sessions.drop_last(), workspace_id);
        assert forall|i: int| 0 <= i < out.len() implies in_workspace(
            #[trigger] out[i],
            workspace_id,
        ) by {
            if i < init.len() {
                assert(out[i] == init[i]);
            }
        }
    }
}

/// Putting a session of a workspace in among sessions of the workspace
/// leaves sessions of the workspace.
proof fn lemma_inserted_stays_in_workspace(
    sorted: Seq<ChatSession>,
    x: ChatSession,
    workspace_id: Seq<char>,
)
    requires
        in_workspace(x, workspace_id),
        forall|i: int| 0 <= i < sorted.len() ==> in_workspace(#[trigger] sorted[i], workspace_id),
    ensures
        forall|i: int|
            0 <= i < crate::ordering::inserted(sorted, x).len() ==> in_workspace(
                #[trigger] crate::ordering::inserted(sorted, x)[i],
                workspace_id,
            ),
    decreases sorted.len(),
{
    let out = crate::ordering::inserted(sorted, x);
    if sorted.len() == 0 || !x.before(&sorted.last()) {
        assert forall|i: int| 0 <= i < out.len() implies in_workspace(
            #[trigger] out[i],
            workspace_id,
        ) by {
            if i < sorted.len() {
                assert(out[i] == sorted[i]);
            }
        }
    } else {
        let init = sorted.drop_last();
        assert forall|i: int| 0 <= i < init.len() implies in_workspace(
            #[trigger] init[i],
            workspace_id,
        ) by {
            assert(init[i] == sorted[i]);
        }
        lemma_inserted_stays_in_workspace(init, x, workspace_id);
        let mid = crate::ordering::inserted(init, x);
        assert forall|i: int| 0 <= i < out.len() implies in_workspace(
            #[trigger] out[i],
            workspace_id,
        ) by {
            if i < mid.len() {
                assert(out[i] == mid[i]);
            } else {
                assert(out[i] == sorted[sorted.len() - 1]);
            }
        }
    }
}

/// Sorting sessions of a workspace leaves sessions of the workspace.
proof fn lemma_sorted_stays_in_workspace(sessions: Seq<ChatSession>, workspace_id: Seq<char>)
    requires
        forall|i: int| 0 <= i < sessions.len() ==> in_workspace(#[trigger] sessions[i], workspace_id),
    ensures
        forall|i: int|
            0 <= i < stable_sorted(sessions).len() ==> in_workspace(
                #[trigger] stable_sorted(sessions)[i],
                workspace_id,
            ),
    decreases sessions.len(),
{
    if sessions.len() > 0 {
        let init = sessions.drop_last();
        assert forall|i: int| 0 <= i < init.len() implies in_workspace(
            #[trigger] init[i],
            workspace_id,
        ) by {
            assert(init[i] == sessions[i]);
        }
        lemma_sorted_stays_in_workspace(init, workspace_id);
        lemma_inserted_stays_in_workspace(stable_sorted(init), sessions.last(), workspace_id);
    }
}

} // verus!
