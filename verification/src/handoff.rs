//! Handoffs: what one session leaves for the next.
use crate::ids::{HandoffId, ProjectId, SessionId, WorkspaceId};
use crate::payload::{agent_name, AgentKind, ObservationKind};
use crate::text::{
    decimal, decimal_text, join_texts, joined, opt_view, precedes, same_text, take_chars,
    text_precedes, trim_text, trimmed, views,
};
use vstd::prelude::*;

verus! {

/// The longest prompt that a handoff repeats in full, in characters.
pub const PROMPT_CAP: usize = 1500;

/// The first line of a handoff.
pub const HEADLINE: &'static str = "> 📥 **ai-memory: pending handoff from previous session**\n";

/// How the receiving agent is to read a handoff.
pub const READING_INSTRUCTIONS: &'static str = "\n---\n\
    _**To the receiving agent:** this content IS the pending \
    handoff — already consumed by the SessionStart hook. A \
    subsequent `memory_handoff_accept` call will return \
    `{ \"handoff\": null }` (single-use). When the user asks \
    \"where did we leave off?\" or \"any pending handoff?\", \
    answer from THIS content; do NOT re-call the tool. Call \
    `memory_query` / `memory_recent` only for additional \
    context beyond what's listed here._\n";

/// The first instant that can be shown, in nanoseconds from the Unix epoch.
pub const MIN_NANOSECOND: i128 = -377705023201_000000000;

/// The last instant that can be shown, in nanoseconds from the Unix epoch.
pub const MAX_NANOSECOND: i128 = 253402207200_999999999;

/// An instant that can be shown.
#[derive(Debug, Clone, Copy)]
pub struct Instant {
    nanosecond: i128,
}

impl Instant {
    #[verifier::type_invariant]
    spec fn in_range(self) -> bool {
        MIN_NANOSECOND <= self.nanosecond <= MAX_NANOSECOND
    }

    /// The nanoseconds from the Unix epoch.
    pub closed spec fn spec_nanosecond(&self) -> i128 {
        self.nanosecond
    }

    /// The instant at so many nanoseconds from the Unix epoch, where it can be shown.
    pub fn from_nanosecond(nanosecond: i128) -> (r: Option<Instant>)
        ensures
            r is Some <==> MIN_NANOSECOND <= nanosecond <= MAX_NANOSECOND,
            r matches Some(instant) ==> instant.spec_nanosecond() == nanosecond,
    {
        if MIN_NANOSECOND <= nanosecond && nanosecond <= MAX_NANOSECOND {
            Some(Instant { nanosecond })
        } else {
            None
        }
    }

    /// The text of the instant.
    fn shown(&self) -> (r: String)
        ensures
            shown_timestamp(self.spec_nanosecond()) == Some(r@),
    {
        proof {
            use_type_invariant(self);
        }
        timestamp_text(self.nanosecond).unwrap()
    }
}

/// What `jiff::Timestamp`'s `Display` writes for the instant at so many nanoseconds
/// from the Unix epoch, where `jiff::Timestamp::from_nanosecond` takes them.
pub uninterp spec fn shown_timestamp(nanosecond: i128) -> Option<Seq<char>>;

/// Calls `jiff::Timestamp::from_nanosecond` and the timestamp's `Display`, through
/// `to_string`. Trusted: the result is a function of the nanoseconds, and there is a
/// text exactly for those within the bounds of a timestamp.
#[verifier::external_body]
fn timestamp_text(nanosecond: i128) -> (r: Option<String>)
    ensures
        match r {
            Some(text) => shown_timestamp(nanosecond) == Some(text@),
            None => shown_timestamp(nanosecond) is None,
        },
        r is Some <==> MIN_NANOSECOND <= nanosecond <= MAX_NANOSECOND,
{
    match jiff::Timestamp::from_nanosecond(nanosecond) {
        Ok(instant) => Some(instant.to_string()),
        Err(_) => None,
    }
}

/// A handoff that waits for an agent.
#[derive(Debug)]
pub struct Handoff {
    pub id: HandoffId,
    /// The agent that left it.
    pub from_agent: AgentKind,
    /// When it was left.
    pub created_at: Instant,
    pub summary: String,
    pub open_questions: Vec<String>,
    pub next_steps: Vec<String>,
    pub files_touched: Vec<String>,
}

/// A handoff that is to be stored.
#[derive(Debug)]
pub struct NewHandoff {
    pub workspace_id: WorkspaceId,
    pub project_id: ProjectId,
    pub from_session_id: Option<SessionId>,
    pub from_agent: AgentKind,
    pub to_agent: Option<AgentKind>,
    pub cwd: Option<String>,
    pub summary: String,
    pub open_questions: Vec<String>,
    pub next_steps: Vec<String>,
    pub files_touched: Vec<String>,
}

/// The view of a [`NewHandoff`].
pub struct NewHandoffView {
    pub workspace_id: WorkspaceId,
    pub project_id: ProjectId,
    pub from_session_id: Option<SessionId>,
    pub from_agent: Option<Seq<char>>,
    pub to_agent: Option<Option<Seq<char>>>,
    pub cwd: Option<Seq<char>>,
    pub summary: Seq<char>,
    pub open_questions: Seq<Seq<char>>,
    pub next_steps: Seq<Seq<char>>,
    pub files_touched: Seq<Seq<char>>,
}

impl View for NewHandoff {
    type V = NewHandoffView;

    open spec fn view(&self) -> NewHandoffView {
        NewHandoffView {
            workspace_id: self.workspace_id,
            project_id: self.project_id,
            from_session_id: self.from_session_id,
            from_agent: self.from_agent@,
            to_agent: match self.to_agent {
                Some(agent) => Some(agent@),
                None => None,
            },
            cwd: opt_view(self.cwd),
            summary: self.summary@,
            open_questions: views(self.open_questions@),
            next_steps: views(self.next_steps@),
            files_touched: views(self.files_touched@),
        }
    }
}

/// What is remembered of an event.
#[derive(Debug)]
pub struct Observation {
    pub kind: ObservationKind,
    pub title: String,
    pub body: String,
}

/// A list with one item a line, each between `before` and `after`.
pub open spec fn bullets(items: Seq<Seq<char>>, before: Seq<char>, after: Seq<char>) -> Seq<char>
    decreases items.len(),
{
    if items.len() == 0 {
        Seq::empty()
    } else {
        bullets(items.drop_last(), before, after) + before + items.last() + after
    }
}

/// A list under a title, or nothing where there are no items.
pub open spec fn section(
    title: Seq<char>,
    items: Seq<Seq<char>>,
    before: Seq<char>,
    after: Seq<char>,
) -> Seq<char> {
    if items.len() == 0 {
        Seq::empty()
    } else {
        title + bullets(items, before, after)
    }
}

/// A handoff as Markdown: what to do first, then the summary, then how to read it.
pub open spec fn markdown(h: Handoff, created: Seq<char>) -> Seq<char> {
    let head = HEADLINE@ + "> from `"@ + agent_name(h.from_agent@) + "` · created "@ + created
        + "\n"@;
    let questions = section("\n**Open questions**\n"@, views(h.open_questions@), "- "@, "\n"@);
    let steps = section("\n**Next steps**\n"@, views(h.next_steps@), "- "@, "\n"@);
    let files = section("\n**Files touched**\n"@, views(h.files_touched@), "- `"@, "`\n"@);
    let summary = "\n**Summary**\n"@ + trimmed(h.summary@) + "\n"@;
    head + questions + steps + files + summary + READING_INSTRUCTIONS@
}

fn push_section(buf: &mut String, title: &str, items: &Vec<String>, before: &str, after: &str)
    ensures
        final(buf)@ == old(buf)@ + section(title@, views(items@), before@, after@),
{
    if items.len() > 0 {
        buf.append(title);
        let ghost start = buf@;
        let ghost all = views(items@);
        let mut i: usize = 0;
        proof {
            assert(start == start + bullets(all.take(0), before@, after@));
        }
        while i < items.len()
            invariant
                i <= items@.len(),
                all == views(items@),
                buf@ == start + bullets(all.take(i as int), before@, after@),
            decreases items.len() - i,
        {
            proof {
                assert(all.take(i + 1).drop_last() == all.take(i as int));
                assert(all.take(i + 1).last() == items@[i as int]@);
            }
            buf.append(before);
            buf.append(items[i].as_str());
            buf.append(after);
            proof {
                assert(buf@ == start + bullets(all.take(i + 1), before@, after@));
            }
            i = i + 1;
        }
        proof {
            assert(all.take(i as int) == all);
            assert(buf@ == old(buf)@ + (title@ + bullets(all, before@, after@)));
        }
    } else {
        assert(buf@ == old(buf)@ + Seq::<char>::empty());
    }
}

/// Renders a handoff, given the text of the instant at which it was left.
pub fn handoff_markdown(h: &Handoff, created: &str) -> (r: String)
    ensures
        r@ == markdown(*h, created@),
{
    let mut buf = HEADLINE.to_string();
    buf.append("> from `");
    buf.append(h.from_agent.as_str());
    buf.append("` · created ");
    buf.append(created);
    buf.append("\n");
    push_section(&mut buf, "\n**Open questions**\n", &h.open_questions, "- ", "\n");
    push_section(&mut buf, "\n**Next steps**\n", &h.next_steps, "- ", "\n");
    push_section(&mut buf, "\n**Files touched**\n", &h.files_touched, "- `", "`\n");
    buf.append("\n**Summary**\n");
    buf.append(trim_text(h.summary.as_str()));
    buf.append("\n");
    buf.append(READING_INSTRUCTIONS);
    assert(buf@ == markdown(*h, created@));
    buf
}

/// Renders a handoff.
pub fn render_handoff_markdown(h: &Handoff) -> (r: String)
    ensures
        r@ == markdown(*h, shown_timestamp(h.created_at.spec_nanosecond())->0),
{
    let created = h.created_at.shown();
    handoff_markdown(h, created.as_str())
}

/// The text of an observation: its body, or its title where the body is empty.
pub open spec fn picked_text(obs: Observation) -> Seq<char> {
    if obs.body@.len() > 0 {
        obs.body@
    } else {
        obs.title@
    }
}

/// What the user asked, in order, without empty prompts.
pub open spec fn prompts(observations: Seq<Observation>) -> Seq<Seq<char>>
    decreases observations.len(),
{
    if observations.len() == 0 {
        Seq::empty()
    } else {
        let rest = prompts(observations.drop_last());
        let obs = observations.last();
        if obs.kind == ObservationKind::UserPrompt && picked_text(obs).len() > 0 {
            rest.push(picked_text(obs))
        } else {
            rest
        }
    }
}

/// The observation names a tool.
pub open spec fn names_tool(obs: Observation, title: Seq<char>) -> bool {
    &&& obs.kind == ObservationKind::PostToolUse || obs.kind == ObservationKind::PreToolUse
    &&& obs.title@ == title
    &&& title.len() > 0
}

/// An observation names the tool.
pub open spec fn tool_was_used(observations: Seq<Observation>, title: Seq<char>) -> bool {
    exists|i: int| 0 <= i < observations.len() && names_tool(#[trigger] observations[i], title)
}

/// The texts stand in order, none of them twice.
pub open spec fn strictly_sorted(texts: Seq<Seq<char>>) -> bool {
    forall|i: int, j: int|
        0 <= i < j < texts.len() ==> text_precedes(#[trigger] texts[i], #[trigger] texts[j])
}

/// `tools` are the tools that were used, in the order of their names, each once.
pub open spec fn is_tool_list(tools: Seq<Seq<char>>, observations: Seq<Observation>) -> bool {
    &&& strictly_sorted(tools)
    &&& forall|title: Seq<char>| #[trigger]
        tools.contains(title) <==> tool_was_used(observations, title)
}

/// A prompt, cut down to [`PROMPT_CAP`] characters and an ellipsis.
pub open spec fn capped(s: Seq<char>) -> Seq<char> {
    if s.len() <= PROMPT_CAP {
        s
    } else {
        s.take(PROMPT_CAP as int).push('…')
    }
}

/// The summary of a session: its first and its last prompt, or how many
/// observations it left where it had none.
pub open spec fn session_summary(asked: Seq<Seq<char>>, observations: nat) -> Seq<char> {
    if asked.len() == 0 {
        "Session ended; "@ + decimal(observations) + " observations recorded."@
    } else if asked.first() == asked.last() {
        "Session focused on: "@ + capped(asked.first())
    } else {
        "Started: "@ + capped(asked.first()) + "\n\nLast: "@ + capped(asked.last())
    }
}

/// The open question of a session: its last prompt.
pub open spec fn session_questions(asked: Seq<Seq<char>>) -> Seq<Seq<char>> {
    if asked.len() == 0 {
        Seq::empty()
    } else {
        seq!["Continue from: "@ + capped(asked.last())]
    }
}

/// The next steps of a session: the tools to go on with.
pub open spec fn session_steps(tools: Seq<Seq<char>>) -> Seq<Seq<char>> {
    if tools.len() == 0 {
        Seq::empty()
    } else {
        seq!["Tools used: "@ + joined(tools, ", "@)]
    }
}

/// The tools that were used, in the order of their names, each once.
pub open spec fn tool_list(observations: Seq<Observation>) -> Seq<Seq<char>> {
    choose|tools: Seq<Seq<char>>| is_tool_list(tools, observations)
}

/// The handoff that a session leaves when it ends.
pub open spec fn auto_handoff(
    workspace_id: WorkspaceId,
    project_id: ProjectId,
    from_agent: Option<Seq<char>>,
    session_id: SessionId,
    cwd: Option<Seq<char>>,
    observations: Seq<Observation>,
) -> NewHandoffView {
    NewHandoffView {
        workspace_id,
        project_id,
        from_session_id: Some(session_id),
        from_agent,
        to_agent: None,
        cwd,
        summary: session_summary(prompts(observations), observations.len()),
        open_questions: session_questions(prompts(observations)),
        next_steps: session_steps(tool_list(observations)),
        files_touched: Seq::empty(),
    }
}

fn pick_text(obs: &Observation) -> (r: &str)
    ensures
        r@ == picked_text(*obs),
{
    if !obs.body.as_str().is_empty() {
        obs.body.as_str()
    } else {
        obs.title.as_str()
    }
}

fn cap(s: &str) -> (r: String)
    ensures
        r@ == capped(s@),
{
    let mut r = take_chars(s, PROMPT_CAP);
    if s.unicode_len() > PROMPT_CAP {
        r.push('…');
    }
    r
}

fn labelled_prompt(label: &str, prompt: &str) -> (r: String)
    ensures
        r@ == label@ + capped(prompt@),
{
    let mut r = label.to_string();
    r.append(cap(prompt).as_str());
    r
}

/// Adds `title` to the sorted `tools`, unless it is there.
fn add_tool(tools: &mut Vec<String>, title: &str)
    requires
        strictly_sorted(views(old(tools)@)),
    ensures
        strictly_sorted(views(final(tools)@)),
        forall|t: Seq<char>| #[trigger]
            views(final(tools)@).contains(t) <==> views(old(tools)@).contains(t) || t == title@,
{
    let ghost before = views(tools@);
    let mut i: usize = 0;
    while i < tools.len() && precedes(tools[i].as_str(), title)
        invariant
            i <= tools@.len(),
            before == views(tools@),
            forall|k: int| 0 <= k < i ==> text_precedes(#[trigger] before[k], title@),
        decreases tools.len() - i,
    {
        i = i + 1;
    }
    if i < tools.len() && same_text(tools[i].as_str(), title) {
        proof {
            assert(before[i as int] == title@);
        }
        return;
    }
    tools.insert(i, title.to_string());
    proof {
        let after = views(tools@);
        assert(after == before.insert(i as int, title@));
        if i < before.len() {
            crate::text::text_order_is_total(before[i as int], title@);
        }
        assert forall|k: int| i <= k < before.len() implies text_precedes(
            title@,
            #[trigger] before[k],
        ) by {
            if k > i {
                assert(text_precedes(before[i as int], before[k]));
                crate::text::text_order_is_transitive(title@, before[i as int], before[k]);
            }
        }
        assert forall|a: int, b: int| 0 <= a < b < after.len() implies text_precedes(
            #[trigger] after[a],
            #[trigger] after[b],
        ) by {
            let x = if a < i { before[a] } else if a == i { title@ } else { before[a - 1] };
            let y = if b < i { before[b] } else if b == i { title@ } else { before[b - 1] };
            assert(after[a] == x && after[b] == y);
        }
        assert forall|t: Seq<char>| #[trigger] after.contains(t) <==> before.contains(t) || t
            == title@ by {
            if after.contains(t) {
                let k = choose|k: int| 0 <= k < after.len() && after[k] == t;
                if k < i {
                    assert(before[k] == t);
                } else if k > i {
                    assert(before[k - 1] == t);
                }
            }
            if before.contains(t) {
                let k = choose|k: int| 0 <= k < before.len() && before[k] == t;
                if k < i {
                    assert(after[k] == t);
                } else {
                    assert(after[k + 1] == t);
                }
            }
            assert(after[i as int] == title@);
        }
    }
}

/// What the user asked: the first prompt and the last.
fn first_and_last_prompt(observations: &[Observation]) -> (r: Option<(String, String)>)
    ensures
        match r {
            Some((first, last)) => prompts(observations@).len() > 0 && first@ == prompts(
                observations@,
            ).first() && last@ == prompts(observations@).last(),
            None => prompts(observations@).len() == 0,
        },
{
    let mut r: Option<(String, String)> = None;
    let mut i: usize = 0;
    while i < observations.len()
        invariant
            i <= observations@.len(),
            match r {
                Some((first, last)) => prompts(observations@.take(i as int)).len() > 0 && first@
                    == prompts(observations@.take(i as int)).first() && last@ == prompts(
                    observations@.take(i as int),
                ).last(),
                None => prompts(observations@.take(i as int)).len() == 0,
            },
        decreases observations.len() - i,
    {
        proof {
            assert(observations@.take(i + 1).drop_last() == observations@.take(i as int));
        }
        let obs = &observations[i];
        if obs.kind == ObservationKind::UserPrompt {
            let text = pick_text(obs);
            if !text.is_empty() {
                r = match r {
                    Some((first, _)) => Some((first, text.to_string())),
                    None => Some((text.to_string(), text.to_string())),
                };
            }
        }
        i = i + 1;
    }
    proof {
        assert(observations@.take(i as int) == observations@);
    }
    r
}

/// The tools that were used, in the order of their names, each once.
fn used_tools(observations: &[Observation]) -> (r: Vec<String>)
    ensures
        is_tool_list(views(r@), observations@),
{
    let mut tools: Vec<String> = Vec::new();
    let mut i: usize = 0;
    while i < observations.len()
        invariant
            i <= observations@.len(),
            is_tool_list(views(tools@), observations@.take(i as int)),
        decreases observations.len() - i,
    {
        let ghost seen = observations@.take(i as int);
        let ghost next = observations@.take(i + 1);
        let ghost before = views(tools@);
        let obs = &observations[i];
        let is_tool = obs.kind == ObservationKind::PostToolUse || obs.kind
            == ObservationKind::PreToolUse;
        if is_tool && !obs.title.as_str().is_empty() {
            add_tool(&mut tools, obs.title.as_str());
        }
        proof {
            assert forall|title: Seq<char>| #[trigger]
                views(tools@).contains(title) <==> tool_was_used(next, title) by {
                assert(before.contains(title) <==> tool_was_used(seen, title));
                if tool_was_used(seen, title) {
                    let k = choose|k: int|
                        0 <= k < seen.len() && names_tool(#[trigger] seen[k], title);
                    assert(names_tool(next[k], title));
                }
                if tool_was_used(next, title) {
                    let k = choose|k: int|
                        0 <= k < next.len() && names_tool(#[trigger] next[k], title);
                    if k < i {
                        assert(names_tool(seen[k], title));
                    }
                }
                assert(next[i as int] == *obs);
            }
        }
        i = i + 1;
    }
    proof {
        assert(observations@.take(i as int) == observations@);
    }
    tools
}

/// The handoff that a session leaves when it ends.
pub fn build_auto_handoff(
    workspace_id: WorkspaceId,
    project_id: ProjectId,
    from_agent: AgentKind,
    session_id: SessionId,
    cwd: Option<String>,
    observations: &[Observation],
) -> (r: NewHandoff)
    ensures
        r@ == auto_handoff(
            workspace_id,
            project_id,
            from_agent@,
            session_id,
            opt_view(cwd),
            observations@,
        ),
        is_tool_list(tool_list(observations@), observations@),
{
    let asked = first_and_last_prompt(observations);
    let tools = used_tools(observations);
    let summary = match &asked {
        Some((first, last)) => if *first == *last {
            labelled_prompt("Session focused on: ", first.as_str())
        } else {
            let mut s = labelled_prompt("Started: ", first.as_str());
            s.append(labelled_prompt("\n\nLast: ", last.as_str()).as_str());
            proof {
                assert(s@ == "Started: "@ + capped(first@) + "\n\nLast: "@ + capped(last@));
            }
            s
        },
        None => {
            let mut s = "Session ended; ".to_string();
            s.append(decimal_text(observations.len()).as_str());
            s.append(" observations recorded.");
            s
        },
    };
    let mut open_questions: Vec<String> = Vec::new();
    if let Some((_, last)) = &asked {
        open_questions.push(labelled_prompt("Continue from: ", last.as_str()));
    }
    let mut next_steps: Vec<String> = Vec::new();
    if tools.len() > 0 {
        let mut step = "Tools used: ".to_string();
        step.append(join_texts(&tools, ", ").as_str());
        next_steps.push(step);
    }
    proof {
        assert(views(open_questions@) =~= session_questions(prompts(observations@)));
        assert(views(next_steps@) =~= session_steps(views(tools@)));
        tool_list_is_unique(views(tools@), tool_list(observations@), observations@);
    }
    let files_touched: Vec<String> = Vec::new();
    assert(views(files_touched@) =~= Seq::empty());
    NewHandoff {
        workspace_id,
        project_id,
        from_session_id: Some(session_id),
        from_agent,
        to_agent: None,
        cwd,
        summary,
        open_questions,
        next_steps,
        files_touched,
    }
}

/// The list of tools is determined by the observations.
pub proof fn tool_list_is_unique(
    a: Seq<Seq<char>>,
    b: Seq<Seq<char>>,
    observations: Seq<Observation>,
)
    requires
        is_tool_list(a, observations),
        is_tool_list(b, observations),
    ensures
        a == b,
{
    assert forall|t: Seq<char>| a.contains(t) <==> b.contains(t) by {
        assert(a.contains(t) <==> tool_was_used(observations, t));
        assert(b.contains(t) <==> tool_was_used(observations, t));
    }
    lemma_sorted_lists_are_equal(a, b);
}

/// Two sorted lists with the same elements are the same list.
proof fn lemma_sorted_lists_are_equal(a: Seq<Seq<char>>, b: Seq<Seq<char>>)
    requires
        strictly_sorted(a),
        strictly_sorted(b),
        forall|t: Seq<char>| a.contains(t) <==> b.contains(t),
    ensures
        a == b,
    decreases a.len(),
{
    if a.len() == 0 {
        if b.len() > 0 {
            assert(b.contains(b[0]));
        }
        assert(a =~= b);
    } else {
        assert(a.contains(a[0]));
        let k = choose|k: int| 0 <= k < b.len() && b[k] == a[0];
        assert(b.contains(b[0]));
        let m = choose|m: int| 0 <= m < a.len() && a[m] == b[0];
        if k > 0 {
            assert(text_precedes(b[0], b[k]));
            if m > 0 {
                assert(text_precedes(a[0], a[m]));
                crate::text::text_order_is_transitive(a[0], b[0], a[0]);
            }
            crate::text::text_order_is_irreflexive(a[0]);
        }
        let (x, y) = (a.drop_first(), b.drop_first());
        assert forall|i: int, j: int| 0 <= i < j < x.len() implies text_precedes(
            #[trigger] x[i],
            #[trigger] x[j],
        ) by {
            assert(text_precedes(a[i + 1], a[j + 1]));
        }
        assert forall|i: int, j: int| 0 <= i < j < y.len() implies text_precedes(
            #[trigger] y[i],
            #[trigger] y[j],
        ) by {
            assert(text_precedes(b[i + 1], b[j + 1]));
        }
        assert forall|t: Seq<char>| x.contains(t) <==> y.contains(t) by {
            lemma_first_leaves(a, t);
            lemma_first_leaves(b, t);
        }
        lemma_sorted_lists_are_equal(x, y);
        assert(a =~= seq![a[0]] + x);
        assert(b =~= seq![b[0]] + y);
    }
}

/// Dropping the first of a sorted list drops that element and no other.
proof fn lemma_first_leaves(a: Seq<Seq<char>>, t: Seq<char>)
    requires
        a.len() > 0,
        strictly_sorted(a),
    ensures
        a.drop_first().contains(t) <==> a.contains(t) && t != a[0],
{
    let x = a.drop_first();
    if x.contains(t) {
        let k = choose|k: int| 0 <= k < x.len() && x[k] == t;
        assert(a[k + 1] == t);
        assert(text_precedes(a[0], a[k + 1]));
        crate::text::text_order_is_irreflexive(t);
    }
    if a.contains(t) && t != a[0] {
        let k = choose|k: int| 0 <= k < a.len() && a[k] == t;
        assert(x[k - 1] == t);
    }
}

/// No prompt makes a handoff grow beyond the cap: what is repeated of a prompt has at
/// most [`PROMPT_CAP`] characters and an ellipsis.
pub proof fn repeated_prompt_is_bounded(s: Seq<char>)
    ensures
        capped(s).len() <= PROMPT_CAP + 1,
        s.len() <= PROMPT_CAP ==> capped(s) == s,
        capped(s).len() >= s.len() || capped(s).last() == '…',
{
}

/// A session with a prompt never leaves an empty summary or an empty question.
pub proof fn handoff_of_a_prompted_session_is_not_empty(observations: Seq<Observation>)
    requires
        prompts(observations).len() > 0,
    ensures
        session_summary(prompts(observations), observations.len()).len() > 0,
        session_questions(prompts(observations)).len() == 1,
        capped(prompts(observations).last()).len() > 0,
{
    lemma_prompts_are_not_empty(observations, prompts(observations).len() - 1);
    reveal_strlit("Session focused on: ");
    reveal_strlit("Started: ");
}

proof fn lemma_prompts_are_not_empty(observations: Seq<Observation>, i: int)
    requires
        0 <= i < prompts(observations).len(),
    ensures
        prompts(observations)[i].len() > 0,
    decreases observations.len(),
{
    let rest = prompts(observations.drop_last());
    if i < rest.len() {
        lemma_prompts_are_not_empty(observations.drop_last(), i);
    }
}

/// `part` stands somewhere in `whole`.
pub open spec fn stands_in(part: Seq<char>, whole: Seq<char>) -> bool {
    exists|before: Seq<char>, after: Seq<char>| #[trigger] (before + part + after) == whole
}

/// Every item of a handoff is shown, on a line of its own: questions and steps as
/// they are, files in backticks. The summary and the reading instructions are always
/// there.
pub proof fn rendering_shows_everything(h: Handoff, created: Seq<char>, i: int)
    ensures
        0 <= i < h.open_questions@.len() ==> stands_in(
            "- "@ + h.open_questions@[i]@ + "\n"@,
            markdown(h, created),
        ),
        0 <= i < h.next_steps@.len() ==> stands_in(
            "- "@ + h.next_steps@[i]@ + "\n"@,
            markdown(h, created),
        ),
        0 <= i < h.files_touched@.len() ==> stands_in(
            "- `"@ + h.files_touched@[i]@ + "`\n"@,
            markdown(h, created),
        ),
        stands_in(trimmed(h.summary@), markdown(h, created)),
        stands_in(READING_INSTRUCTIONS@, markdown(h, created)),
{
    let head = HEADLINE@ + "> from `"@ + agent_name(h.from_agent@) + "` · created "@ + created
        + "\n"@;
    let questions = section("\n**Open questions**\n"@, views(h.open_questions@), "- "@, "\n"@);
    let steps = section("\n**Next steps**\n"@, views(h.next_steps@), "- "@, "\n"@);
    let files = section("\n**Files touched**\n"@, views(h.files_touched@), "- `"@, "`\n"@);
    let summary = trimmed(h.summary@);
    let whole = markdown(h, created);
    let tail = "\n**Summary**\n"@ + summary + "\n"@ + READING_INSTRUCTIONS@;
    assert(whole == head + questions + (steps + files + tail));
    assert(whole == (head + questions) + steps + (files + tail));
    assert(whole == (head + questions + steps) + files + tail);
    assert(whole == (head + questions + steps + files + "\n**Summary**\n"@) + summary + ("\n"@
        + READING_INSTRUCTIONS@));
    assert(whole == (head + questions + steps + files + "\n**Summary**\n"@ + summary + "\n"@)
        + READING_INSTRUCTIONS@ + Seq::<char>::empty());
    if 0 <= i < h.open_questions@.len() {
        lemma_item_stands_in_section(
            "\n**Open questions**\n"@,
            views(h.open_questions@),
            "- "@,
            "\n"@,
            i,
        );
        lemma_stands_in_is_transitive("- "@ + h.open_questions@[i]@ + "\n"@, questions, whole);
    }
    if 0 <= i < h.next_steps@.len() {
        lemma_item_stands_in_section(
            "\n**Next steps**\n"@,
            views(h.next_steps@),
            "- "@,
            "\n"@,
            i,
        );
        lemma_stands_in_is_transitive("- "@ + h.next_steps@[i]@ + "\n"@, steps, whole);
    }
    if 0 <= i < h.files_touched@.len() {
        lemma_item_stands_in_section(
            "\n**Files touched**\n"@,
            views(h.files_touched@),
            "- `"@,
            "`\n"@,
            i,
        );
        lemma_stands_in_is_transitive("- `"@ + h.files_touched@[i]@ + "`\n"@, files, whole);
    }
}

proof fn lemma_stands_in_is_transitive(a: Seq<char>, b: Seq<char>, c: Seq<char>)
    requires
        stands_in(a, b),
        stands_in(b, c),
    ensures
        stands_in(a, c),
{
    let (p, q) = choose|p: Seq<char>, q: Seq<char>| #[trigger] (p + a + q) == b;
    let (x, y) = choose|x: Seq<char>, y: Seq<char>| #[trigger] (x + b + y) == c;
    assert((x + p) + a + (q + y) == c);
}

proof fn lemma_item_stands_in_section(
    title: Seq<char>,
    items: Seq<Seq<char>>,
    before: Seq<char>,
    after: Seq<char>,
    i: int,
)
    requires
        0 <= i < items.len(),
    ensures
        stands_in(before + items[i] + after, section(title, items, before, after)),
{
    lemma_item_stands_in_bullets(items, before, after, i);
    let list = bullets(items, before, after);
    assert(title + list + Seq::<char>::empty() == section(title, items, before, after));
    lemma_stands_in_is_transitive(
        before + items[i] + after,
        list,
        section(title, items, before, after),
    );
}

proof fn lemma_item_stands_in_bullets(
    items: Seq<Seq<char>>,
    before: Seq<char>,
    after: Seq<char>,
    i: int,
)
    requires
        0 <= i < items.len(),
    ensures
        stands_in(before + items[i] + after, bullets(items, before, after)),
    decreases items.len(),
{
    let item = before + items[i] + after;
    let list = bullets(items, before, after);
    let rest = bullets(items.drop_last(), before, after);
    if i == items.len() - 1 {
        assert(rest + item + Seq::<char>::empty() == list);
    } else {
        lemma_item_stands_in_bullets(items.drop_last(), before, after, i);
        assert(Seq::<char>::empty() + rest + (before + items.last() + after) == list);
        lemma_stands_in_is_transitive(item, rest, list);
    }
}

/// The prompts of two parts of a session, one after the other, are the prompts of the
/// session; a single observation is a prompt exactly where the user gave it and it has
/// a text, its body or else its title. So no other observation takes a prompt away,
/// wherever it stands.
pub proof fn prompts_are_those_of_the_parts(
    a: Seq<Observation>,
    b: Seq<Observation>,
    obs: Observation,
)
    ensures
        prompts(a + b) == prompts(a) + prompts(b),
        obs.kind != ObservationKind::UserPrompt ==> prompts(seq![obs]).len() == 0,
        obs.kind == ObservationKind::UserPrompt && obs.body@.len() > 0 ==> prompts(seq![obs])
            == seq![obs.body@],
        obs.kind == ObservationKind::UserPrompt && obs.body@.len() == 0 && obs.title@.len() > 0
            ==> prompts(seq![obs]) == seq![obs.title@],
        obs.body@.len() == 0 && obs.title@.len() == 0 ==> prompts(seq![obs]).len() == 0,
    decreases b.len(),
{
    if b.len() == 0 {
        assert(a + b == a);
        assert(prompts(b) == Seq::<Seq<char>>::empty());
        assert(prompts(a) + prompts(b) == prompts(a));
    } else {
        assert((a + b).drop_last() == a + b.drop_last());
        prompts_are_those_of_the_parts(a, b.drop_last(), obs);
        assert(prompts(a + b) == prompts(a) + prompts(b));
    }
    reveal_with_fuel(prompts, 2);
    assert(seq![obs].drop_last() == Seq::<Observation>::empty());
}

/// The user gave the observation, and it has a text.
spec fn is_prompt(obs: Observation) -> bool {
    obs.kind == ObservationKind::UserPrompt && (obs.body@.len() > 0 || obs.title@.len() > 0)
}

/// Observations that are no prompts leave no prompts.
proof fn lemma_no_prompts(observations: Seq<Observation>)
    requires
        forall|k: int| 0 <= k < observations.len() ==> !is_prompt(#[trigger] observations[k]),
    ensures
        prompts(observations).len() == 0,
    decreases observations.len(),
{
    if observations.len() > 0 {
        let head = observations.drop_last();
        assert forall|k: int| 0 <= k < head.len() implies !is_prompt(#[trigger] head[k]) by {
            assert(head[k] == observations[k]);
        }
        lemma_no_prompts(head);
    }
}

/// A prompt among other observations: those before it and those behind it leave theirs.
proof fn lemma_prompt_between(before: Seq<Observation>, obs: Observation, after: Seq<Observation>)
    requires
        is_prompt(obs),
    ensures
        prompts(before + seq![obs] + after) == prompts(before) + seq![picked_text(obs)] + prompts(
            after,
        ),
{
    prompts_are_those_of_the_parts(before + seq![obs], after, obs);
    prompts_are_those_of_the_parts(before, seq![obs], obs);
    assert(prompts(seq![obs]) == seq![picked_text(obs)]);
}

/// The first prompt of a session is the first of its observations that is a prompt,
/// the last prompt the last of them.
proof fn lemma_first_and_last(observations: Seq<Observation>, i: int, j: int)
    requires
        0 <= i <= j < observations.len(),
        is_prompt(observations[i]),
        is_prompt(observations[j]),
        forall|k: int| 0 <= k < i ==> !is_prompt(#[trigger] observations[k]),
        forall|k: int| j < k < observations.len() ==> !is_prompt(#[trigger] observations[k]),
    ensures
        prompts(observations).len() > 0,
        prompts(observations).first() == picked_text(observations[i]),
        prompts(observations).last() == picked_text(observations[j]),
        i == j ==> prompts(observations).len() == 1,
{
    let before = observations.take(i);
    let after = observations.skip(j + 1);
    assert(prompts(before).len() == 0) by {
        assert forall|k: int| 0 <= k < before.len() implies !is_prompt(#[trigger] before[k]) by {
            assert(before[k] == observations[k]);
        }
        lemma_no_prompts(before);
    }
    assert(prompts(after).len() == 0) by {
        assert forall|k: int| 0 <= k < after.len() implies !is_prompt(#[trigger] after[k]) by {
            assert(after[k] == observations[j + 1 + k]);
        }
        lemma_no_prompts(after);
    }
    assert(prompts(observations) == prompts(before) + seq![picked_text(observations[i])] + prompts(
        observations.skip(i + 1),
    )) by {
        assert(observations == before + seq![observations[i]] + observations.skip(i + 1));
        lemma_prompt_between(before, observations[i], observations.skip(i + 1));
    }
    assert(prompts(observations) == prompts(observations.take(j)) + seq![
        picked_text(observations[j]),
    ] + prompts(after)) by {
        assert(observations == observations.take(j) + seq![observations[j]] + after);
        lemma_prompt_between(observations.take(j), observations[j], after);
    }
}

/// What a handoff repeats of a prompt: its first 1500 characters, marked where more of
/// them are left out.
pub open spec fn repeats(part: Seq<char>, prompt: Seq<char>) -> bool {
    if prompt.len() <= 1500 {
        part == prompt
    } else {
        part.len() == 1501 && part.last() == '…' && part.drop_last() == prompt.take(1500)
    }
}

/// A handoff says how the session started and what it was left at: its first and its
/// last prompt stand in the summary, whatever other observations stand before, between
/// and behind them, and the last prompt is the one open question.
pub proof fn handoff_tells_first_and_last_prompt(
    workspace_id: WorkspaceId,
    project_id: ProjectId,
    from_agent: Option<Seq<char>>,
    session_id: SessionId,
    cwd: Option<Seq<char>>,
    observations: Seq<Observation>,
    i: int,
    j: int,
    first: Seq<char>,
    last: Seq<char>,
) -> (r: (Seq<char>, Seq<char>))
    requires
        0 <= i <= j < observations.len(),
        observations[i].kind == ObservationKind::UserPrompt,
        observations[j].kind == ObservationKind::UserPrompt,
        first.len() > 0,
        last.len() > 0,
        first == observations[i].body@ || observations[i].body@.len() == 0 && first
            == observations[i].title@,
        last == observations[j].body@ || observations[j].body@.len() == 0 && last
            == observations[j].title@,
        forall|k: int|
            (0 <= k < i || j < k < observations.len()) && (
            #[trigger] observations[k]).kind == ObservationKind::UserPrompt
                ==> observations[k].body@.len() == 0 && observations[k].title@.len() == 0,
    ensures
        repeats(r.0, first),
        repeats(r.1, last),
        ({
            let h = auto_handoff(
                workspace_id,
                project_id,
                from_agent,
                session_id,
                cwd,
                observations,
            );
            &&& first == last ==> h.summary == "Session focused on: "@ + r.0
            &&& first != last ==> h.summary == "Started: "@ + r.0 + "\n\nLast: "@ + r.1
            &&& h.open_questions == seq!["Continue from: "@ + r.1]
        }),
{
    lemma_first_and_last(observations, i, j);
    assert(capped(first).drop_last() == first.take(1500) || first.len() <= 1500);
    assert(capped(last).drop_last() == last.take(1500) || last.len() <= 1500);
    (capped(first), capped(last))
}

/// A session without a prompt leaves the number of its observations as its summary, and
/// no open question.
pub proof fn handoff_of_an_unprompted_session_counts(
    workspace_id: WorkspaceId,
    project_id: ProjectId,
    from_agent: Option<Seq<char>>,
    session_id: SessionId,
    cwd: Option<Seq<char>>,
    observations: Seq<Observation>,
) -> (count: Seq<char>)
    requires
        forall|k: int|
            0 <= k < observations.len() && (#[trigger] observations[k]).kind
                == ObservationKind::UserPrompt ==> observations[k].body@.len() == 0
                && observations[k].title@.len() == 0,
    ensures
        crate::text::decimal_value(count) == observations.len(),
        ({
            let h = auto_handoff(
                workspace_id,
                project_id,
                from_agent,
                session_id,
                cwd,
                observations,
            );
            &&& h.summary == "Session ended; "@ + count + " observations recorded."@
            &&& h.open_questions.len() == 0
        }),
{
    lemma_no_prompts(observations);
    crate::text::decimal_reads_back(observations.len());
    decimal(observations.len())
}

/// A handoff is for anyone, and says where it was left: by which agent, in which
/// session, project and directory. It names no files.
pub proof fn handoff_says_where_it_was_left(
    workspace_id: WorkspaceId,
    project_id: ProjectId,
    from_agent: Option<Seq<char>>,
    session_id: SessionId,
    cwd: Option<Seq<char>>,
    observations: Seq<Observation>,
)
    ensures
        ({
            let h = auto_handoff(
                workspace_id,
                project_id,
                from_agent,
                session_id,
                cwd,
                observations,
            );
            &&& h.workspace_id == workspace_id
            &&& h.project_id == project_id
            &&& h.from_session_id == Some(session_id)
            &&& h.from_agent == from_agent
            &&& h.to_agent is None
            &&& h.cwd == cwd
            &&& h.files_touched.len() == 0
        }),
{
}

/// The one next step of a handoff names every tool that was used, before or after its
/// use, once each, in the order of their names, and no other; a session without tools
/// leaves no next step.
pub proof fn next_step_names_the_tools(
    workspace_id: WorkspaceId,
    project_id: ProjectId,
    from_agent: Option<Seq<char>>,
    session_id: SessionId,
    cwd: Option<Seq<char>>,
    observations: Seq<Observation>,
) -> (tools: Seq<Seq<char>>)
    requires
        is_tool_list(tool_list(observations), observations),
    ensures
        forall|i: int, j: int|
            0 <= i < j < tools.len() ==> text_precedes(#[trigger] tools[i], #[trigger] tools[j]),
        forall|k: int|
            0 <= k < observations.len() && ((#[trigger] observations[k]).kind
                == ObservationKind::PreToolUse || observations[k].kind
                == ObservationKind::PostToolUse) && observations[k].title@.len() > 0
                ==> tools.contains(observations[k].title@),
        forall|t: int|
            0 <= t < tools.len() ==> exists|k: int|
                0 <= k < observations.len() && (#[trigger] observations[k]).title@
                    == #[trigger] tools[t] && tools[t].len() > 0 && (observations[k].kind
                    == ObservationKind::PreToolUse || observations[k].kind
                    == ObservationKind::PostToolUse),
        ({
            let h = auto_handoff(
                workspace_id,
                project_id,
                from_agent,
                session_id,
                cwd,
                observations,
            );
            &&& tools.len() == 0 ==> h.next_steps.len() == 0
            &&& tools.len() > 0 ==> h.next_steps == seq!["Tools used: "@ + joined(tools, ", "@)]
        }),
{
    let tools = tool_list(observations);
    assert forall|k: int|
        0 <= k < observations.len() && ((#[trigger] observations[k]).kind
            == ObservationKind::PreToolUse || observations[k].kind == ObservationKind::PostToolUse)
            && observations[k].title@.len() > 0 implies tools.contains(observations[k].title@) by {
        assert(names_tool(observations[k], observations[k].title@));
        assert(tool_was_used(observations, observations[k].title@));
    }
    assert forall|t: int| 0 <= t < tools.len() implies exists|k: int|
        0 <= k < observations.len() && (#[trigger] observations[k]).title@ == #[trigger] tools[t]
            && tools[t].len() > 0 && (observations[k].kind == ObservationKind::PreToolUse
            || observations[k].kind == ObservationKind::PostToolUse) by {
        assert(tools.contains(tools[t]));
        assert(tool_was_used(observations, tools[t]));
        let k = choose|k: int|
            0 <= k < observations.len() && names_tool(#[trigger] observations[k], tools[t]);
        assert(observations[k].title@ == tools[t]);
    }
    tools
}

/// A list under a title, with every item on a line of its own in the order of the
/// items; nothing at all where there is no item.
pub open spec fn is_list(
    part: Seq<char>,
    title: Seq<char>,
    items: Seq<String>,
    before: Seq<char>,
    after: Seq<char>,
) -> bool {
    if items.len() == 0 {
        part.len() == 0
    } else {
        part == title + items.map_values(|item: String| before + item@ + after).flatten()
    }
}

/// A handoff is rendered in this order: who left it and when, the open questions, the
/// next steps, the files, the summary without white space round it, and how to read it.
pub proof fn rendering_is_in_order(h: Handoff, created: Seq<char>) -> (r: (
    Seq<char>,
    Seq<char>,
    Seq<char>,
))
    ensures
        markdown(h, created) == HEADLINE@ + "> from `"@ + (match h.from_agent {
            AgentKind::Known(name) => name@,
            AgentKind::Other => "other"@,
        }) + "` · created "@ + created + "\n"@ + r.0 + r.1 + r.2 + "\n**Summary**\n"@ + trimmed(
            h.summary@,
        ) + "\n"@ + READING_INSTRUCTIONS@,
        is_list(r.0, "\n**Open questions**\n"@, h.open_questions@, "- "@, "\n"@),
        is_list(r.1, "\n**Next steps**\n"@, h.next_steps@, "- "@, "\n"@),
        is_list(r.2, "\n**Files touched**\n"@, h.files_touched@, "- `"@, "`\n"@),
{
    let questions = section("\n**Open questions**\n"@, views(h.open_questions@), "- "@, "\n"@);
    let steps = section("\n**Next steps**\n"@, views(h.next_steps@), "- "@, "\n"@);
    let files = section("\n**Files touched**\n"@, views(h.files_touched@), "- `"@, "`\n"@);
    lemma_bullets_are_lines(h.open_questions@, "- "@, "\n"@);
    lemma_bullets_are_lines(h.next_steps@, "- "@, "\n"@);
    lemma_bullets_are_lines(h.files_touched@, "- `"@, "`\n"@);
    (questions, steps, files)
}

proof fn lemma_bullets_are_lines(items: Seq<String>, before: Seq<char>, after: Seq<char>)
    ensures
        bullets(views(items), before, after) == items.map_values(
            |item: String| before + item@ + after,
        ).flatten(),
    decreases items.len(),
{
    let line = |item: String| before + item@ + after;
    let lines = items.map_values(line);
    lines.lemma_flatten_and_flatten_alt_are_equivalent();
    if items.len() > 0 {
        let head = items.drop_last();
        lemma_bullets_are_lines(head, before, after);
        assert(views(items).drop_last() == views(head));
        assert(lines.drop_last() == head.map_values(line));
        lines.drop_last().lemma_flatten_and_flatten_alt_are_equivalent();
        assert(views(items).last() == items.last()@);
        assert(lines.last() == before + items.last()@ + after);
        assert(bullets(views(items), before, after) == bullets(views(head), before, after) + (before
            + items.last()@ + after));
    }
}

/// A handoff that is to be stored is looked at as it is.
pub proof fn new_handoff_is_seen_whole(h: NewHandoff)
    ensures
        h@.workspace_id == h.workspace_id,
        h@.project_id == h.project_id,
        h@.from_session_id == h.from_session_id,
        h@.from_agent == h.from_agent@,
        h.to_agent is None <==> h@.to_agent is None,
        h.cwd matches Some(cwd) ==> h@.cwd == Some(cwd@),
        h.cwd is None ==> h@.cwd is None,
        h@.summary == h.summary@,
        h@.open_questions.len() == h.open_questions@.len(),
        h@.next_steps.len() == h.next_steps@.len(),
        h@.files_touched.len() == h.files_touched@.len(),
        forall|i: int|
            0 <= i < h.open_questions@.len() ==> #[trigger] h@.open_questions[i]
                == h.open_questions@[i]@,
        forall|i: int|
            0 <= i < h.next_steps@.len() ==> #[trigger] h@.next_steps[i] == h.next_steps@[i]@,
{
}

/// The handoff that is built for a session is the one that its observations tell.
pub proof fn built_handoff_is_the_one_told(
    workspace_id: WorkspaceId,
    project_id: ProjectId,
    from_agent: AgentKind,
    session_id: SessionId,
    cwd: Option<String>,
    observations: &[Observation],
    r: NewHandoff,
)
    requires
        call_ensures(
            build_auto_handoff,
            (workspace_id, project_id, from_agent, session_id, cwd, observations),
            r,
        ),
    ensures
        r@ == auto_handoff(
            workspace_id,
            project_id,
            from_agent@,
            session_id,
            match cwd {
                Some(text) => Some(text@),
                None => None,
            },
            observations@,
        ),
        is_tool_list(tool_list(observations@), observations@),
{
}

/// Every instant from the year -9999 to the year 9999 can be shown, no other, and it
/// stays the one that was given.
pub proof fn instant_is_the_one_given(nanosecond: i128, r: Option<Instant>)
    requires
        call_ensures(Instant::from_nanosecond, (nanosecond,), r),
    ensures
        r is Some <==> -377705023201_000000000 <= nanosecond <= 253402207200_999999999,
        r matches Some(instant) ==> instant.spec_nanosecond() == nanosecond,
{
}

} // verus!
