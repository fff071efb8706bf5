//! The context store: the ordered sequence of conversation turns, its
//! flattened textual rendering, and the summarizing replacement operation.

use vstd::prelude::*;
use vstd::string::*;
use crate::manager::{ToolResult, ToolResultView, results_view};

verus! {

/// The role a recorded turn was spoken in.
#[derive(Clone, Copy, Debug, PartialEq, Eq, Structural)]
pub enum Role {
    User,
    Assistant,
    Tool,
}

/// One recorded message of the conversation.  Turns are appended, never
/// edited in place; the sequence of turns is the unit of "context".
pub struct Turn {
    /// Who produced this turn.
    pub role: Role,
    /// The text content of the turn.
    pub content: String,
    /// For tool-result turns: the name of the tool that ran.
    pub tool_name: Option<String>,
    /// For tool-result turns: the correlation identifier assigned by the
    /// backend to the originating tool call, echoed unmodified.
    pub tool_call_id: Option<String>,
}

/// The mathematical image of a [`Turn`].
pub struct TurnView {
    pub role: Role,
    pub content: Seq<char>,
    pub tool_name: Option<Seq<char>>,
    pub tool_call_id: Option<Seq<char>>,
}

/// The mathematical image of an optional string.
pub open spec fn opt_str_view(s: Option<String>) -> Option<Seq<char>> {
    match s {
        Some(t) => Some(t@),
        None => None,
    }
}

impl View for Turn {
    type V = TurnView;

    open spec fn view(&self) -> TurnView {
        TurnView {
            role: self.role,
            content: self.content@,
            tool_name: opt_str_view(self.tool_name),
            tool_call_id: opt_str_view(self.tool_call_id),
        }
    }
}

/// The turn a call to `add_user_message(text)` appends.
pub open spec fn user_turn(text: Seq<char>) -> TurnView {
    TurnView { role: Role::User, content: text, tool_name: None, tool_call_id: None }
}

/// The turn a call to `add_assistant_message(text)` appends.
pub open spec fn assistant_turn(text: Seq<char>) -> TurnView {
    TurnView { role: Role::Assistant, content: text, tool_name: None, tool_call_id: None }
}

/// The turn recorded for one tool result: the result text as content, the
/// tool's name and the originating call's identifier as metadata.
pub open spec fn tool_turn(result: ToolResultView) -> TurnView {
    TurnView {
        role: Role::Tool,
        content: result.result,
        tool_name: Some(result.tool_name),
        tool_call_id: result.tool_call_id,
    }
}

/// The turns recorded for a sequence of tool results, in order.
pub open spec fn tool_turns(results: Seq<ToolResultView>) -> Seq<TurnView> {
    results.map_values(|r: ToolResultView| tool_turn(r))
}

/// The tag that opens the rendering of a turn of the given role.
pub open spec fn role_tag(role: Role) -> Seq<char> {
    match role {
        Role::User => "user: "@,
        Role::Assistant => "assistant: "@,
        Role::Tool => "tool: "@,
    }
}

/// The rendering of one turn: its role tag, its content, and a newline.
pub open spec fn render_turn(turn: TurnView) -> Seq<char> {
    role_tag(turn.role) + turn.content + "\n"@
}

/// The flattened textual rendering of a turn sequence: the renderings of the
/// turns, concatenated in order.
pub open spec fn render(turns: Seq<TurnView>) -> Seq<char>
    decreases turns.len(),
{
    if turns.len() == 0 {
        Seq::empty()
    } else {
        render(turns.drop_last()) + render_turn(turns.last())
    }
}

/// Rendering distributes over concatenation of turn sequences: appending
/// turns appends their renderings, in order, at the end of the output.  With
/// the contracts of the `add_*` operations this is the ordering invariant:
/// the context output reflects the turns exactly in call order.
pub proof fn lemma_render_append(a: Seq<TurnView>, b: Seq<TurnView>)
    ensures
        render(a + b) == render(a) + render(b),
    decreases b.len(),
{
    if b.len() == 0 {
        assert(a + b =~= a);
        assert(render(a) + render(b) =~= render(a));
    } else {
        assert((a + b).drop_last() =~= a + b.drop_last());
        lemma_render_append(a, b.drop_last());
        assert((a + b).last() == b.last());
        assert(render(a + b) =~= render(a) + render(b));
    }
}

/// Appending a turn never shrinks the rendering: the context length measure
/// is monotonically non-decreasing under the `add_*` operations.
pub proof fn lemma_render_length_monotone(turns: Seq<TurnView>, turn: TurnView)
    ensures
        render(turns).len() <= render(turns.push(turn)).len(),
{
    assert(turns.push(turn).drop_last() =~= turns);
    assert(render(turns.push(turn)) == render(turns) + render_turn(turns.push(turn).last()));
}

/// After the turns are replaced with a single summary turn, the flattened
/// context reflects only the summary.
pub proof fn lemma_summary_render(summary: Seq<char>)
    ensures
        render(seq![assistant_turn(summary)]) == role_tag(Role::Assistant) + summary + "\n"@,
{
    let turns = seq![assistant_turn(summary)];
    assert(turns.drop_last() =~= Seq::<TurnView>::empty());
    assert(render(turns.drop_last()) + render_turn(turns.last()) =~= render_turn(turns.last()));
}

/// The rendering is a pure function of the turn sequence: two renderings of
/// the same sequence are the same text.  With the contract of `get_context`
/// this is idempotence: two calls without an intervening mutation agree.
pub proof fn lemma_render_deterministic(
    turns: Seq<TurnView>,
    first: Seq<char>,
    second: Seq<char>,
)
    requires
        first == render(turns),
        second == render(turns),
    ensures
        first == second,
{
}

/// The ordered store of conversation turns exclusively owned by one manager.
pub struct ContextManager {
    turns: Vec<Turn>,
}

impl View for ContextManager {
    type V = Seq<TurnView>;

    closed spec fn view(&self) -> Seq<TurnView> {
        self.turns@.map_values(|t: Turn| t@)
    }
}

impl ContextManager {
    /// An empty store: no turns recorded yet.
    pub fn new() -> (store: Self)
        ensures
            store@ == Seq::<TurnView>::empty(),
    {
        let store = ContextManager { turns: Vec::new() };
        proof {
            assert(store@ =~= Seq::<TurnView>::empty());
        }
        store
    }

    /// How many turns the store currently holds.
    pub fn turn_count(&self) -> (n: usize)
        ensures
            n == self@.len(),
    {
        self.turns.len()
    }

    /// Read one recorded turn.
    pub fn turn(&self, i: usize) -> (turn: &Turn)
        requires
            i < self@.len(),
        ensures
            turn@ == self@[i as int],
    {
        &self.turns[i]
    }

    /// Append a user turn carrying the given text.  Unconditionally succeeds.
    pub fn add_user_message(&mut self, text: &str)
        ensures
            final(self)@ == old(self)@.push(user_turn(text@)),
    {
        let turn = Turn {
            role: Role::User,
            content: text.to_owned(),
            tool_name: None,
            tool_call_id: None,
        };
        self.turns.push(turn);
        proof {
            assert(final(self)@ =~= old(self)@.push(user_turn(text@)));
        }
    }

    /// Append an assistant turn carrying the given text.  Unconditionally
    /// succeeds.
    pub fn add_assistant_message(&mut self, text: &str)
        ensures
            final(self)@ == old(self)@.push(assistant_turn(text@)),
    {
        let turn = Turn {
            role: Role::Assistant,
            content: text.to_owned(),
            tool_name: None,
            tool_call_id: None,
        };
        self.turns.push(turn);
        proof {
            assert(final(self)@ =~= old(self)@.push(assistant_turn(text@)));
        }
    }

    /// Append one tool-result turn per given result, preserving their order
    /// and each result's tool-call identifier as turn metadata.
    /// Unconditionally succeeds.
    pub fn add_tool_results(&mut self, results: &Vec<ToolResult>)
        ensures
            final(self)@ == old(self)@ + tool_turns(results_view(results@)),
    {
        let mut i: usize = 0;
        proof {
            assert(results@.take(0) =~= Seq::<ToolResult>::empty());
            assert(results_view(Seq::<ToolResult>::empty()) =~= Seq::<ToolResultView>::empty());
            assert(tool_turns(Seq::<ToolResultView>::empty()) =~= Seq::<TurnView>::empty());
            assert(self@ =~= old(self)@ + tool_turns(results_view(results@.take(0))));
        }
        while i < results.len()
            invariant
                i <= results.len(),
                self@ == old(self)@ + tool_turns(results_view(results@.take(i as int))),
            decreases results.len() - i,
        {
            let result = &results[i];
            let turn = Turn {
                role: Role::Tool,
                content: result.result.clone(),
                tool_name: Some(result.tool_name.clone()),
                tool_call_id: match &result.tool_call_id {
                    Some(id) => Some(id.clone()),
                    None => None,
                },
            };
            proof {
                assert(turn@ == tool_turn(results@[i as int]@));
            }
            let ghost prev = self@;
            self.turns.push(turn);
            proof {
                assert(self@ =~= prev.push(tool_turn(results@[i as int]@)));
                assert(results_view(results@.take(i + 1))
                    =~= results_view(results@.take(i as int)).push(results@[i as int]@));
                assert(tool_turns(results_view(results@.take(i + 1)))
                    =~= tool_turns(results_view(results@.take(i as int))).push(
                        tool_turn(results@[i as int]@),
                    ));
                assert(self@ =~= old(self)@ + tool_turns(results_view(results@.take(i + 1))));
            }
            i = i + 1;
        }
        proof {
            assert(results@.take(results.len() as int) =~= results@);
        }
    }

    /// Atomically discard the recorded turns and replace them with a single
    /// synthetic turn carrying the summary text.  This lossy compaction is
    /// the only operation that may shrink the sequence; afterwards the
    /// context reflects only the summary.
    pub fn replace_with_summary(&mut self, summary: &str)
        ensures
            final(self)@ == seq![assistant_turn(summary@)],
            final(self)@.len() == 1,
    {
        self.turns.clear();
        let turn = Turn {
            role: Role::Assistant,
            content: summary.to_owned(),
            tool_name: None,
            tool_call_id: None,
        };
        self.turns.push(turn);
        proof {
            assert(self@ =~= seq![assistant_turn(summary@)]);
        }
    }

    /// The flattened context: the deterministic, order-preserving rendering
    /// of the recorded turns, as the backend expects it.
    pub fn get_context(&self) -> (context: String)
        ensures
            context@ == render(self@),
    {
        let mut context = String::new();
        let mut i: usize = 0;
        proof {
            assert(self@.take(0) =~= Seq::<TurnView>::empty());
        }
        while i < self.turns.len()
            invariant
                i <= self.turns.len(),
                context@ == render(self@.take(i as int)),
            decreases self.turns.len() - i,
        {
            let turn = &self.turns[i];
            match turn.role {
                Role::User => context.append("user: "),
                Role::Assistant => context.append("assistant: "),
                Role::Tool => context.append("tool: "),
            }
            context.append(turn.content.as_str());
            context.append("\n");
            proof {
                assert(self@.take(i + 1).drop_last() =~= self@.take(i as int));
                assert(self@.take(i + 1).last() == self@[i as int]);
                assert(context@ =~= render(self@.take(i + 1)));
            }
            i = i + 1;
        }
        proof {
            assert(self@.take(self.turns.len() as int) =~= self@);
        }
        context
    }

    /// The size of the current flattened context, measured in characters,
    /// compared by the manager against the compression threshold.
    pub fn context_length(&self) -> (len: usize)
        ensures
            len == render(self@).len(),
    {
        let context = self.get_context();
        context.as_str().unicode_len()
    }
}

} // verus!
