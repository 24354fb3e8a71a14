//! Permission evaluation for tool calls.
//!
//! A tool call is decided in this order: a PreToolUse hook decision, the deny
//! rules, the permission mode, the allow rules, and finally a default deny.

use vstd::prelude::*;

use crate::options::PermissionMode;
use crate::text::{cat, push_char, push_str, str_eq};

verus! {

/// Whether the regular expression `pattern` matches somewhere in `text`;
/// `None` when `pattern` is not a valid expression.
pub uninterp spec fn regex_matches(pattern: Seq<char>, text: Seq<char>) -> Option<bool>;

/// Compile `pattern` with `regex::Regex::new` and, when it compiles, test it
/// with `Regex::is_match`. The result is named `regex_matches`: `None` when
/// compilation fails, else whether the expression matches `text`.
#[verifier::external_body]
fn regex_is_match(pattern: &str, text: &str) -> (r: Option<bool>)
    ensures
        r == regex_matches(pattern@, text@),
{
    match regex::Regex::new(pattern) {
        Ok(re) => Some(re.is_match(text)),
        Err(_) => None,
    }
}

/// Outcome of permission evaluation. `AllowWithUpdatedInput` carries the
/// JSON text of the replacement input.
#[derive(Debug, Clone)]
pub enum PermissionVerdict {
    Allow,
    AllowWithUpdatedInput(String),
    Deny { reason: String },
}

/// Decision a PreToolUse hook can return.
#[derive(Debug, Clone, Copy, PartialEq, Eq, Structural)]
pub enum PermissionDecision {
    Allow,
    Deny,
    Ask,
}

/// Top-level decision of a hook.
#[derive(Debug, Clone, Copy, PartialEq, Eq, Structural)]
pub enum HookDecision {
    Approve,
    Block,
}

/// Output of a hook that runs asynchronously.
#[derive(Debug, Clone, Copy)]
pub struct AsyncHookOutput {
    pub is_async: bool,
    pub async_timeout: Option<u64>,
}

/// What a PreToolUse hook answered that bears on permissions; the updated
/// input is JSON text.
#[derive(Debug, Clone)]
pub struct PreToolUseAnswer {
    pub permission_decision: Option<PermissionDecision>,
    pub permission_decision_reason: Option<String>,
    pub updated_input: Option<String>,
}

/// The verdict of one hook answer: a deny (with its reason or
/// `"Denied by hook"`), an allow (with the updated input when there is one),
/// or no decision.
pub fn verdict_from_hook(answer: &PreToolUseAnswer) -> (r: Option<PermissionVerdict>)
    ensures
        answer.permission_decision == Some(PermissionDecision::Deny) ==> (r matches Some(
            PermissionVerdict::Deny { reason },
        ) && reason@ == match answer.permission_decision_reason {
            Some(s) => s@,
            None => "Denied by hook"@,
        }),
        answer.permission_decision == Some(PermissionDecision::Allow) ==> match answer.updated_input {
            Some(u) => r matches Some(PermissionVerdict::AllowWithUpdatedInput(v)) && v == u,
            None => r matches Some(PermissionVerdict::Allow),
        },
        answer.permission_decision != Some(PermissionDecision::Deny)
            && answer.permission_decision != Some(PermissionDecision::Allow) ==> r is None,
{
    match answer.permission_decision {
        Some(PermissionDecision::Deny) => {
            let reason = match &answer.permission_decision_reason {
                Some(s) => s.clone(),
                None => "Denied by hook".to_owned(),
            };
            Some(PermissionVerdict::Deny { reason })
        },
        Some(PermissionDecision::Allow) => match &answer.updated_input {
            Some(u) => Some(PermissionVerdict::AllowWithUpdatedInput(u.clone())),
            None => Some(PermissionVerdict::Allow),
        },
        _ => None,
    }
}

/// A verdict as a pair: its kind (0 allow, 1 allow with a replaced
/// input, 2 deny) and its text (the replacement input, or the reason).
pub open spec fn verdict_view(v: PermissionVerdict) -> (int, Seq<char>) {
    match v {
        PermissionVerdict::Allow => (0, seq![]),
        PermissionVerdict::AllowWithUpdatedInput(u) => (1, u@),
        PermissionVerdict::Deny { reason } => (2, reason@),
    }
}

/// The verdict of a hook answer, if it decides (as `verdict_from_hook`
/// gives it).
pub open spec fn answer_verdict(a: PreToolUseAnswer) -> Option<(int, Seq<char>)> {
    if a.permission_decision == Some(PermissionDecision::Deny) {
        Some(
            (
                2,
                match a.permission_decision_reason {
                    Some(s) => s@,
                    None => "Denied by hook"@,
                },
            ),
        )
    } else if a.permission_decision == Some(PermissionDecision::Allow) {
        match a.updated_input {
            Some(u) => Some((1, u@)),
            None => Some((0, seq![])),
        }
    } else {
        None
    }
}

/// The decision of a list of PreToolUse hook answers, taken in order: the
/// first answer that decides wins; later answers are not looked at.
pub open spec fn first_decision(answers: Seq<PreToolUseAnswer>) -> Option<(int, Seq<char>)>
    decreases answers.len(),
{
    if answers.len() == 0 {
        None
    } else if answer_verdict(answers[0]) is Some {
        answer_verdict(answers[0])
    } else {
        first_decision(answers.drop_first())
    }
}

proof fn lemma_first_decision_extend(answers: Seq<PreToolUseAnswer>, a: PreToolUseAnswer)
    requires
        first_decision(answers) is None,
    ensures
        first_decision(answers.push(a)) == answer_verdict(a),
    decreases answers.len(),
{
    if answers.len() == 0 {
        assert(answers.push(a)[0] == a);
        assert(answers.push(a).drop_first() =~= Seq::<PreToolUseAnswer>::empty());
        assert(first_decision(answers.push(a).drop_first()) is None);
    } else {
        assert(answers.push(a)[0] == answers[0]);
        assert(answer_verdict(answers[0]) is None);
        assert(answers.push(a).drop_first() =~= answers.drop_first().push(a));
        lemma_first_decision_extend(answers.drop_first(), a);
        assert(first_decision(answers.push(a)) == first_decision(answers.push(a).drop_first()));
    }
}

proof fn lemma_first_decision_keeps(answers: Seq<PreToolUseAnswer>, a: PreToolUseAnswer)
    requires
        first_decision(answers) is Some,
    ensures
        first_decision(answers.push(a)) == first_decision(answers),
    decreases answers.len(),
{
    assert(answers.push(a)[0] == answers[0]);
    if answer_verdict(answers[0]) is None {
        assert(answers.push(a).drop_first() =~= answers.drop_first().push(a));
        lemma_first_decision_keeps(answers.drop_first(), a);
    }
}

/// The decision of the PreToolUse hooks that have answered, in the order
/// they ran: the first that decided (a deny with its reason, or an allow
/// with its updated input), if any.
pub fn first_hook_decision(answers: &Vec<PreToolUseAnswer>) -> (r: Option<PermissionVerdict>)
    ensures
        match r {
            Some(v) => first_decision(answers@) == Some(verdict_view(v)),
            None => first_decision(answers@) is None,
        },
{
    let mut i: usize = 0;
    while i < answers.len()
        invariant
            0 <= i <= answers@.len(),
            first_decision(answers@.take(i as int)) is None,
        decreases answers@.len() - i,
    {
        proof {
            assert(answers@.take(i + 1) =~= answers@.take(i as int).push(answers@[i as int]));
            lemma_first_decision_extend(answers@.take(i as int), answers@[i as int]);
        }
        let v = verdict_from_hook(&answers[i]);
        if let Some(verdict) = v {
            proof {
                reveal_strlit("Denied by hook");
                let ghost rest = answers@.skip(i + 1);
                lemma_first_decision_prefix(answers@, i + 1);
            }
            return Some(verdict);
        }
        i += 1;
    }
    proof {
        assert(answers@.take(i as int) =~= answers@);
    }
    None
}

/// A decision among the first answers is the decision of them all.
proof fn lemma_first_decision_prefix(answers: Seq<PreToolUseAnswer>, n: int)
    requires
        0 <= n <= answers.len(),
        first_decision(answers.take(n)) is Some,
    ensures
        first_decision(answers) == first_decision(answers.take(n)),
    decreases answers.len() - n,
{
    if n < answers.len() {
        assert(answers.take(n + 1) =~= answers.take(n).push(answers[n]));
        lemma_first_decision_keeps(answers.take(n), answers[n]);
        lemma_first_decision_prefix(answers, n + 1);
    } else {
        assert(answers.take(n) =~= answers);
    }
}

/// Regular expression for a wildcard pattern: `.` is escaped, `*` matches
/// any run of characters, and the whole name must match.
pub open spec fn wildcard_body(p: Seq<char>) -> Seq<char>
    decreases p.len(),
{
    if p.len() == 0 {
        Seq::empty()
    } else {
        wildcard_body(p.drop_last()) + if p.last() == '.' {
            seq!['\\', '.']
        } else if p.last() == '*' {
            seq!['.', '*']
        } else {
            seq![p.last()]
        }
    }
}

pub open spec fn wildcard_regex(p: Seq<char>) -> Seq<char> {
    seq!['^'] + wildcard_body(p) + seq!['$']
}

/// Index of the first `(` of a pattern, if any.
pub open spec fn first_paren(p: Seq<char>) -> Option<int> {
    if exists|i: int| 0 <= i < p.len() && p[i] == '(' {
        Some(choose|i: int| 0 <= i < p.len() && p[i] == '(' && forall|j: int| 0 <= j < i ==> p[j] != '(')
    } else {
        None
    }
}

/// Whether a tool name matches a permission pattern: exactly, by the name
/// before a scope in parentheses (`Bash(npm:*)`), or as a wildcard pattern.
pub open spec fn tool_matches_spec(name: Seq<char>, pattern: Seq<char>) -> bool {
    if pattern == name {
        true
    } else if first_paren(pattern) matches Some(i) && pattern.take(i) == name {
        true
    } else if pattern.contains('*') {
        regex_matches(wildcard_regex(pattern), name) == Some(true)
    } else {
        false
    }
}

fn wildcard_regex_of(pattern: &Vec<char>) -> (r: String)
    ensures
        r@ == wildcard_regex(pattern@),
{
    let mut r = String::new();
    push_char(&mut r, '^');
    let mut i: usize = 0;
    while i < pattern.len()
        invariant
            0 <= i <= pattern@.len(),
            r@ == seq!['^'] + wildcard_body(pattern@.take(i as int)),
        decreases pattern@.len() - i,
    {
        assert(pattern@.take(i + 1).drop_last() =~= pattern@.take(i as int));
        let c = pattern[i];
        if c == '.' {
            push_char(&mut r, '\\');
            push_char(&mut r, '.');
        } else if c == '*' {
            push_char(&mut r, '.');
            push_char(&mut r, '*');
        } else {
            push_char(&mut r, c);
        }
        assert(r@ =~= seq!['^'] + wildcard_body(pattern@.take(i + 1)));
        i += 1;
    }
    assert(pattern@.take(i as int) =~= pattern@);
    push_char(&mut r, '$');
    assert(r@ =~= wildcard_regex(pattern@));
    r
}

fn find_first(v: &Vec<char>, c: char) -> (r: Option<usize>)
    ensures
        r matches Some(i) ==> i < v@.len() && v@[i as int] == c && forall|j: int| 0 <= j < i ==> v@[j] != c,
        r is None ==> forall|j: int| 0 <= j < v@.len() ==> v@[j] != c,
{
    let mut i: usize = 0;
    while i < v.len()
        invariant
            0 <= i <= v@.len(),
            forall|j: int| 0 <= j < i ==> v@[j] != c,
        decreases v@.len() - i,
    {
        if v[i] == c {
            return Some(i);
        }
        i += 1;
    }
    None
}

/// Check if a tool name matches a permission pattern.
pub fn tool_matches(tool_name: &str, pattern: &str) -> (r: bool)
    ensures
        r == tool_matches_spec(tool_name@, pattern@),
{
    if str_eq(pattern, tool_name) {
        return true;
    }
    let p = crate::text::chars_of(pattern);
    let paren = find_first(&p, '(');
    proof {
        match paren {
            Some(i) => {
                assert(exists|k: int| 0 <= k < p@.len() && p@[k] == '(');
                let c = choose|c: int| 0 <= c < p@.len() && p@[c] == '(' && forall|j: int| 0 <= j < c ==> p@[j] != '(';
                if c < i {
                    assert(p@[c] != '(');
                } else if c > i {
                    assert(p@[i as int] != '(');
                }
                assert(first_paren(pattern@) == Some(i as int));
            },
            None => {
                assert(first_paren(pattern@) is None);
            },
        }
    }
    if let Some(i) = paren {
        let base = crate::text::string_of_range(&p, 0, i);
        assert(base@ =~= pattern@.take(i as int));
        if str_eq(base.as_str(), tool_name) {
            return true;
        }
    }
    let star = find_first(&p, '*');
    proof {
        if star is None {
            assert(!pattern@.contains('*'));
        }
    }
    if star.is_some() {
        let re = wildcard_regex_of(&p);
        match regex_is_match(re.as_str(), tool_name) {
            Some(m) => m,
            None => false,
        }
    } else {
        false
    }
}

/// Tools that `acceptEdits` approves: Edit, Write and NotebookEdit.
pub open spec fn file_operation(name: Seq<char>) -> bool {
    name == "Edit"@ || name == "Write"@ || name == "NotebookEdit"@
}

/// Check if a tool is a file operation.
pub fn is_file_operation(tool_name: &str) -> (r: bool)
    ensures
        r == file_operation(tool_name@),
{
    str_eq(tool_name, "Edit") || str_eq(tool_name, "Write") || str_eq(tool_name, "NotebookEdit")
}

/// Some pattern of the list matches the tool.
pub open spec fn any_pattern_matches(name: Seq<char>, patterns: Seq<Seq<char>>) -> bool {
    exists|i: int| 0 <= i < patterns.len() && tool_matches_spec(name, #[trigger] patterns[i])
}

fn matches_any(tool_name: &str, patterns: &Vec<String>) -> (r: bool)
    ensures
        r == any_pattern_matches(tool_name@, patterns.deep_view()),
{
    let mut i: usize = 0;
    while i < patterns.len()
        invariant
            0 <= i <= patterns@.len(),
            forall|j: int| 0 <= j < i ==> !tool_matches_spec(tool_name@, #[trigger] patterns.deep_view()[j]),
        decreases patterns@.len() - i,
    {
        if tool_matches(tool_name, patterns[i].as_str()) {
            assert(tool_matches_spec(tool_name@, patterns.deep_view()[i as int]));
            return true;
        }
        i += 1;
    }
    false
}

/// The decision of the rules, after hooks: `None` for allow, `Some(reason)`
/// for deny.
pub open spec fn rule_decision(
    mode: PermissionMode,
    allowed: Seq<Seq<char>>,
    disallowed: Seq<Seq<char>>,
    name: Seq<char>,
) -> Option<Seq<char>> {
    if any_pattern_matches(name, disallowed) {
        Some("Tool '"@ + name + "' is in disallowed_tools"@)
    } else if mode == PermissionMode::BypassPermissions {
        None
    } else if mode == PermissionMode::AcceptEdits && file_operation(name) {
        None
    } else if mode == PermissionMode::Plan {
        Some("Plan mode - no tool execution allowed"@)
    } else if mode == PermissionMode::DontAsk {
        if any_pattern_matches(name, allowed) {
            None
        } else {
            Some("Tool '"@ + name + "' not pre-approved and permissionMode is dontAsk"@)
        }
    } else if any_pattern_matches(name, allowed) {
        None
    } else {
        Some("Tool '"@ + name + "' not approved by any permission rule"@)
    }
}

/// The rules leave the call to the `can_use_tool` callback: no deny rule
/// matches, the mode neither decides nor (in `acceptEdits`) approves a file
/// operation, and no allow rule matches.
pub open spec fn rules_unresolved(
    mode: PermissionMode,
    allowed: Seq<Seq<char>>,
    disallowed: Seq<Seq<char>>,
    name: Seq<char>,
) -> bool {
    &&& !any_pattern_matches(name, disallowed)
    &&& (mode == PermissionMode::Default || (mode == PermissionMode::AcceptEdits && !file_operation(name)))
    &&& !any_pattern_matches(name, allowed)
}

/// The permission rules of a query: allow list, deny list and mode.
pub struct PermissionEvaluator {
    pub allowed_tools: Vec<String>,
    pub disallowed_tools: Vec<String>,
    pub permission_mode: PermissionMode,
}

impl PermissionEvaluator {
    pub fn new(
        allowed_tools: Vec<String>,
        disallowed_tools: Vec<String>,
        permission_mode: PermissionMode,
    ) -> (e: PermissionEvaluator)
        ensures
            e.allowed_tools == allowed_tools,
            e.disallowed_tools == disallowed_tools,
            e.permission_mode == permission_mode,
    {
        PermissionEvaluator { allowed_tools, disallowed_tools, permission_mode }
    }

    /// The tool matches a pattern of `disallowed_tools`.
    pub fn is_disallowed(&self, tool_name: &str) -> (r: bool)
        ensures
            r == any_pattern_matches(tool_name@, self.disallowed_tools.deep_view()),
    {
        matches_any(tool_name, &self.disallowed_tools)
    }

    /// The tool matches a pattern of `allowed_tools`.
    pub fn is_allowed(&self, tool_name: &str) -> (r: bool)
        ensures
            r == any_pattern_matches(tool_name@, self.allowed_tools.deep_view()),
    {
        matches_any(tool_name, &self.allowed_tools)
    }

    /// Whether the rules leave this tool to the `can_use_tool` callback
    /// (asked only when no hook decided).
    pub fn asks_callback(&self, tool_name: &str) -> (r: bool)
        ensures
            r == rules_unresolved(
                self.permission_mode,
                self.allowed_tools.deep_view(),
                self.disallowed_tools.deep_view(),
                tool_name@,
            ),
    {
        if self.is_disallowed(tool_name) {
            return false;
        }
        let mode_leaves = match self.permission_mode {
            PermissionMode::Default => true,
            PermissionMode::AcceptEdits => !is_file_operation(tool_name),
            _ => false,
        };
        mode_leaves && !self.is_allowed(tool_name)
    }

    /// Decide a tool call, given the decision of the PreToolUse hooks (the
    /// first hook that decided, if any) and the answer of the `can_use_tool`
    /// callback (if there is one and it was asked): a hook's decision wins;
    /// then the rules; where they leave the call open, the callback's
    /// answer is followed, and without one the call is denied.
    pub fn evaluate(
        &self,
        hook_verdict: Option<PermissionVerdict>,
        tool_name: &str,
        callback_answer: Option<PermissionVerdict>,
    ) -> (r: PermissionVerdict)
        ensures
            hook_verdict matches Some(v) ==> r == v,
            hook_verdict is None && rules_unresolved(
                self.permission_mode,
                self.allowed_tools.deep_view(),
                self.disallowed_tools.deep_view(),
                tool_name@,
            ) && callback_answer is Some ==> Some(r) == callback_answer,
            hook_verdict is None && !(rules_unresolved(
                self.permission_mode,
                self.allowed_tools.deep_view(),
                self.disallowed_tools.deep_view(),
                tool_name@,
            ) && callback_answer is Some) ==> match rule_decision(
                self.permission_mode,
                self.allowed_tools.deep_view(),
                self.disallowed_tools.deep_view(),
                tool_name@,
            ) {
                None => r matches PermissionVerdict::Allow,
                Some(reason) => r matches PermissionVerdict::Deny { reason: m } && m@ == reason,
            },
            hook_verdict is None && self.permission_mode == PermissionMode::DontAsk && !any_pattern_matches(
                tool_name@,
                self.disallowed_tools.deep_view(),
            ) && any_pattern_matches(tool_name@, self.allowed_tools.deep_view()) ==> r matches PermissionVerdict::Allow,
            hook_verdict is None && self.permission_mode == PermissionMode::DontAsk && !any_pattern_matches(
                tool_name@,
                self.allowed_tools.deep_view(),
            ) ==> r matches PermissionVerdict::Deny { .. },
    {
        if let Some(v) = hook_verdict {
            return v;
        }
        if self.asks_callback(tool_name) {
            if let Some(a) = callback_answer {
                return a;
            }
        }
        if self.is_disallowed(tool_name) {
            let mut m = cat("Tool '", tool_name);
            push_str(&mut m, "' is in disallowed_tools");
            return PermissionVerdict::Deny { reason: m };
        }
        match self.permission_mode {
            PermissionMode::BypassPermissions => {
                return PermissionVerdict::Allow;
            },
            PermissionMode::AcceptEdits => {
                if is_file_operation(tool_name) {
                    return PermissionVerdict::Allow;
                }
            },
            PermissionMode::Plan => {
                return PermissionVerdict::Deny {
                    reason: "Plan mode - no tool execution allowed".to_owned(),
                };
            },
            PermissionMode::DontAsk => {
                if self.is_allowed(tool_name) {
                    return PermissionVerdict::Allow;
                }
                let mut m = cat("Tool '", tool_name);
                push_str(&mut m, "' not pre-approved and permissionMode is dontAsk");
                return PermissionVerdict::Deny { reason: m };
            },
            PermissionMode::Default => {},
        }
        if self.is_allowed(tool_name) {
            return PermissionVerdict::Allow;
        }
        let mut m = cat("Tool '", tool_name);
        push_str(&mut m, "' not approved by any permission rule");
        PermissionVerdict::Deny { reason: m }
    }
}

/// A tool denied by the deny list stays denied whatever the mode and the
/// allow list, unless a hook decided first.
pub proof fn lemma_deny_list_wins(
    mode: PermissionMode,
    allowed: Seq<Seq<char>>,
    disallowed: Seq<Seq<char>>,
    name: Seq<char>,
)
    requires
        any_pattern_matches(name, disallowed),
    ensures
        rule_decision(mode, allowed, disallowed, name) is Some,
{
}

/// Plan mode never allows a tool without a hook decision.
pub proof fn lemma_plan_mode_denies(allowed: Seq<Seq<char>>, disallowed: Seq<Seq<char>>, name: Seq<char>)
    ensures
        rule_decision(PermissionMode::Plan, allowed, disallowed, name) is Some,
{
}

/// Bypass mode allows every tool that the deny list does not name.
pub proof fn lemma_bypass_allows(allowed: Seq<Seq<char>>, disallowed: Seq<Seq<char>>, name: Seq<char>)
    requires
        !any_pattern_matches(name, disallowed),
    ensures
        rule_decision(PermissionMode::BypassPermissions, allowed, disallowed, name) is None,
{
}

/// In the default mode a tool that the allow list names (and the deny list
/// does not) is allowed by the rules; any other tool is left to the
/// `can_use_tool` callback, and denied by the rules when there is none.
pub proof fn lemma_default_mode_follows_allow_list(
    allowed: Seq<Seq<char>>,
    disallowed: Seq<Seq<char>>,
    name: Seq<char>,
)
    requires
        !any_pattern_matches(name, disallowed),
    ensures
        rule_decision(PermissionMode::Default, allowed, disallowed, name) is None
            <==> any_pattern_matches(name, allowed),
        rules_unresolved(PermissionMode::Default, allowed, disallowed, name)
            <==> !any_pattern_matches(name, allowed),
{
}

/// In `dontAsk` mode the allow list decides alone: a tool that the allow
/// list names (and the deny list does not) is allowed by the rules, any
/// other is denied, and the `can_use_tool` callback is never asked.
pub proof fn lemma_dont_ask_follows_allow_list(allowed: Seq<Seq<char>>, disallowed: Seq<Seq<char>>, name: Seq<char>)
    requires
        !any_pattern_matches(name, disallowed),
    ensures
        rule_decision(PermissionMode::DontAsk, allowed, disallowed, name) is None <==> any_pattern_matches(
            name,
            allowed,
        ),
        !rules_unresolved(PermissionMode::DontAsk, allowed, disallowed, name),
{
}

/// In `acceptEdits` mode a file operation (Edit, Write, NotebookEdit) that
/// the deny list does not name is allowed by the rules; any other tool is
/// treated as in the default mode.
pub proof fn lemma_accept_edits_allows_file_operations(
    allowed: Seq<Seq<char>>,
    disallowed: Seq<Seq<char>>,
    name: Seq<char>,
)
    requires
        !any_pattern_matches(name, disallowed),
    ensures
        file_operation(name) ==> rule_decision(PermissionMode::AcceptEdits, allowed, disallowed, name) is None,
        !file_operation(name) ==> rule_decision(PermissionMode::AcceptEdits, allowed, disallowed, name)
            == rule_decision(PermissionMode::Default, allowed, disallowed, name),
        !file_operation(name) ==> (rules_unresolved(PermissionMode::AcceptEdits, allowed, disallowed, name)
            <==> rules_unresolved(PermissionMode::Default, allowed, disallowed, name)),
{
}

/// A tool named in a permission list matches it: by its exact name, and by
/// its name followed by a scope in parentheses.
pub proof fn lemma_listed_name_matches(name: Seq<char>, scope: Seq<char>, patterns: Seq<Seq<char>>)
    requires
        !name.contains('('),
    ensures
        tool_matches_spec(name, name),
        tool_matches_spec(name, name + seq!['('] + scope),
        patterns.contains(name) ==> any_pattern_matches(name, patterns),
        patterns.contains(name + seq!['('] + scope) ==> any_pattern_matches(name, patterns),
{
    let p = name + seq!['('] + scope;
    let i = name.len() as int;
    assert(p[i] == '(');
    assert forall|j: int| 0 <= j < i implies p[j] != '(' by {
        assert(p[j] == name[j]);
    }
    let c = choose|c: int| 0 <= c < p.len() && p[c] == '(' && forall|j: int| 0 <= j < c ==> p[j] != '(';
    if c < i {
        assert(p[c] == name[c]);
        assert(name.contains('('));
    }
    assert(c == i);
    assert(p.take(i) =~= name);
    if patterns.contains(name) {
        let k = choose|k: int| 0 <= k < patterns.len() && patterns[k] == name;
        assert(tool_matches_spec(name, patterns[k]));
    }
    if patterns.contains(p) {
        let k = choose|k: int| 0 <= k < patterns.len() && patterns[k] == p;
        assert(tool_matches_spec(name, patterns[k]));
    }
}

/// Whether a hook answer allows or denies (an `ask` or no decision leaves
/// the call to the next hook).
pub open spec fn decides(a: PreToolUseAnswer) -> bool {
    a.permission_decision == Some(PermissionDecision::Allow) || a.permission_decision == Some(
        PermissionDecision::Deny,
    )
}

/// Among PreToolUse hook answers taken in order, the first that allows or
/// denies decides the call: a deny carries its reason (or "Denied by hook"),
/// an allow carries its replacement input when it gives one. When no answer
/// allows or denies, the hooks decide nothing.
pub proof fn lemma_first_deciding_hook_wins(answers: Seq<PreToolUseAnswer>, j: int)
    requires
        0 <= j <= answers.len(),
        forall|k: int| 0 <= k < j ==> !decides(#[trigger] answers[k]),
        j < answers.len() ==> decides(answers[j]),
    ensures
        j == answers.len() ==> first_decision(answers) is None,
        j < answers.len() ==> (first_decision(answers) matches Some(v) && (if answers[j].permission_decision
            == Some(PermissionDecision::Deny) {
            v.0 == 2 && v.1 == match answers[j].permission_decision_reason {
                Some(s) => s@,
                None => "Denied by hook"@,
            }
        } else {
            match answers[j].updated_input {
                Some(u) => v.0 == 1 && v.1 == u@,
                None => v.0 == 0,
            }
        })),
    decreases j,
{
    if answers.len() > 0 {
        if j > 0 {
            assert(!decides(answers[0]));
            assert forall|k: int| 0 <= k < j - 1 implies !decides(#[trigger] answers.drop_first()[k]) by {
                assert(answers.drop_first()[k] == answers[k + 1]);
            }
            if j < answers.len() {
                assert(answers.drop_first()[j - 1] == answers[j]);
            }
            lemma_first_deciding_hook_wins(answers.drop_first(), j - 1);
        }
    }
}

} // verus!
