//! Structured RED / GREEN / REFACTOR plan templates.
//!
//! When a message carries the `--deep` flag, a three-stage TDD skeleton is
//! generated for the task that follows the flag.

use vstd::prelude::*;

use crate::text::{
    chars_of, contains, find_from, is_ws, is_ws_exec, occurs_at, owned, push_str, slice_chars,
    string_from_chars, sviews, trim, trim_chars,
};

verus! {

/// A TDD phase.
#[derive(Debug, Clone, Copy, PartialEq, Eq, Structural)]
pub enum Phase {
    Red,
    Green,
    Refactor,
}

impl Phase {
    /// The phase's label.
    pub open spec fn label(self) -> Seq<char> {
        match self {
            Phase::Red => "RED"@,
            Phase::Green => "GREEN"@,
            Phase::Refactor => "REFACTOR"@,
        }
    }

    /// The phase's label.
    pub fn as_str(&self) -> (s: &'static str)
        ensures
            s@ == self.label(),
    {
        match self {
            Phase::Red => "RED",
            Phase::Green => "GREEN",
            Phase::Refactor => "REFACTOR",
        }
    }
}

/// One stage of a plan.
#[derive(Debug, Clone)]
pub struct PlanStage {
    pub phase: Phase,
    pub description: String,
    pub todo_items: Vec<String>,
}

/// A structured deep plan.
#[derive(Debug, Clone)]
pub struct DeepPlan {
    pub stages: Vec<PlanStage>,
}

/// The flag that asks for a deep plan.
pub open spec fn deep_flag() -> Seq<char> {
    "--deep"@
}

/// The first index at which `p` occurs in `s`.
pub open spec fn first_occurrence(s: Seq<char>, p: Seq<char>) -> int {
    choose|i: int| occurs_at(s, p, i) && forall|j: int| 0 <= j < i ==> !occurs_at(s, p, j)
}

/// The second piece of `s` split at `p` (`s.split(p).nth(1)`), given that
/// `p` occurs in `s`.
pub open spec fn second_piece(s: Seq<char>, p: Seq<char>) -> Seq<char> {
    let rest = s.skip(first_occurrence(s, p) + p.len());
    if contains(rest, p) {
        rest.take(first_occurrence(rest, p))
    } else {
        rest
    }
}

/// A character that is stripped before a task description.
pub open spec fn is_lead_sep(c: char) -> bool {
    is_ws(c) || c == ',' || c == ':'
}

/// Number of leading separator characters of `s`.
pub open spec fn lead_seps(s: Seq<char>) -> nat
    decreases s.len(),
{
    if s.len() > 0 && is_lead_sep(s[0]) {
        1 + lead_seps(s.drop_first())
    } else {
        0
    }
}

/// The task named after the flag, trimmed and without leading `,` and `:`.
pub open spec fn task_text(input: Seq<char>) -> Seq<char> {
    let t = trim(second_piece(input, deep_flag()));
    t.skip(lead_seps(t) as int)
}

/// The task description used in a plan.
pub open spec fn task_desc(input: Seq<char>) -> Seq<char> {
    if task_text(input).len() == 0 {
        "未指定任务"@
    } else {
        task_text(input)
    }
}

/// The model of a stage: phase, description and to-do items.
pub open spec fn stage_model(st: PlanStage) -> (Phase, Seq<char>, Seq<Seq<char>>) {
    (st.phase, st.description@, sviews(st.todo_items@))
}

/// The three stages of the plan for task `d`.
pub open spec fn plan_stages(d: Seq<char>) -> Seq<(Phase, Seq<char>, Seq<Seq<char>>)> {
    seq![
        (
            Phase::Red,
            "编写失败测试 — "@ + d,
            seq!["定义 "@ + d + " 的接口/签名"@, "编写最小断言验证预期行为 — 预期编译失败或测试失败"@],
        ),
        (
            Phase::Green,
            "实现最小通过 — "@ + d,
            seq!["编写最简实现使 RED 测试通过"@, "不做额外优化，仅满足测试"@],
        ),
        (
            Phase::Refactor,
            "重构优化 — "@ + d,
            seq!["消除重复/冗余，保持测试通过"@, "提取公共逻辑，优化命名和结构"@],
        ),
    ]
}

proof fn lemma_first_occurrence(s: Seq<char>, p: Seq<char>, i: int)
    requires
        occurs_at(s, p, i),
        forall|j: int| 0 <= j < i ==> !occurs_at(s, p, j),
    ensures
        first_occurrence(s, p) == i,
{
    let k = first_occurrence(s, p);
    assert(occurs_at(s, p, k) && forall|j: int| 0 <= j < k ==> !occurs_at(s, p, j));
    if k < i {
        assert(!occurs_at(s, p, k));
    } else if k > i {
        assert(!occurs_at(s, p, i));
    }
}

/// Index of the first character of `v[lo..hi]` that is not a separator.
fn skip_lead_seps(v: &Vec<char>, lo: usize, hi: usize) -> (r: usize)
    requires
        lo <= hi <= v.len(),
    ensures
        lo <= r <= hi,
        r - lo == lead_seps(v@.subrange(lo as int, hi as int)),
{
    let mut i = lo;
    while i < hi && (is_ws_exec(v[i]) || v[i] == ',' || v[i] == ':')
        invariant
            lo <= i <= hi <= v.len(),
            lead_seps(v@.subrange(lo as int, hi as int)) == (i - lo) + lead_seps(
                v@.subrange(i as int, hi as int),
            ),
        decreases hi - i,
    {
        proof {
            assert(v@.subrange(i as int, hi as int).drop_first() =~= v@.subrange(
                i + 1,
                hi as int,
            ));
        }
        i += 1;
    }
    i
}

/// Occurrences of `p` in `s.skip(a)` are those of `p` in `s` shifted by `a`.
proof fn lemma_occurs_skip(s: Seq<char>, p: Seq<char>, a: int, j: int)
    requires
        0 <= a <= s.len(),
        0 <= j,
    ensures
        occurs_at(s.skip(a), p, j) <==> occurs_at(s, p, a + j),
{
    if j + p.len() <= s.len() - a {
        assert(s.skip(a).subrange(j, j + p.len()) =~= s.subrange(a + j, a + j + p.len()));
    }
}

/// The bounds of `s.split(p).nth(1)` within `s`, where `p` occurs in `s`.
fn second_piece_bounds(v: &Vec<char>, pat: &Vec<char>) -> (r: (usize, usize))
    requires
        contains(v@, pat@),
    ensures
        r.0 <= r.1 <= v.len(),
        v@.subrange(r.0 as int, r.1 as int) == second_piece(v@, pat@),
{
    let p = match find_from(v, pat, 0) {
        Some(p) => p,
        None => {
            proof {
                let j = choose|j: int| occurs_at(v@, pat@, j);
                assert(!occurs_at(v@, pat@, j));
            }
            return (0, 0);
        },
    };
    proof {
        lemma_first_occurrence(v@, pat@, p as int);
        assert(occurs_at(v@, pat@, p as int));
        assert(p + pat@.len() <= v@.len());
    }
    let plen = pat.len();
    assert(p + plen <= v.len());
    let a = p + plen;
    let ghost rest = v@.skip(a as int);
    match find_from(v, pat, a) {
        Some(q) => {
            proof {
                lemma_occurs_skip(v@, pat@, a as int, q - a);
                assert forall|j: int| 0 <= j < q - a implies !occurs_at(rest, pat@, j) by {
                    lemma_occurs_skip(v@, pat@, a as int, j);
                }
                lemma_first_occurrence(rest, pat@, q - a);
                assert(rest.take(q - a) =~= v@.subrange(a as int, q as int));
            }
            (a, q)
        },
        None => {
            proof {
                assert forall|j: int| !occurs_at(rest, pat@, j) by {
                    if j >= 0 {
                        lemma_occurs_skip(v@, pat@, a as int, j);
                    }
                }
                assert(rest =~= v@.subrange(a as int, v@.len() as int));
            }
            (a, v.len())
        },
    }
}

/// The task description of a message that contains the flag.
#[verifier::spinoff_prover]
#[verifier::rlimit(40)]
fn extract_task(input: &str) -> (d: String)
    requires
        contains(input@, deep_flag()),
    ensures
        d@ == task_desc(input@),
{
    let v = chars_of(input);
    let pat = chars_of("--deep");
    let (a, end) = second_piece_bounds(&v, &pat);
    let seg = slice_chars(&v, a, end);
    let t = trim_chars(&seg);
    let s = skip_lead_seps(&t, 0, t.len());
    proof {
        assert(t@.subrange(0, t@.len() as int) =~= t@);
    }
    let d = slice_chars(&t, s, t.len());
    proof {
        let piece = second_piece(input@, deep_flag());
        assert(seg@ == piece);
        assert(t@ == trim(piece));
        assert(d@ =~= t@.skip(lead_seps(t@) as int));
    }
    if d.len() == 0 {
        owned("未指定任务")
    } else {
        string_from_chars(&d)
    }
}

/// `a` followed by `b`.
fn cat(a: &str, b: &str) -> (r: String)
    ensures
        r@ == a@ + b@,
{
    let mut r = owned(a);
    push_str(&mut r, b);
    r
}

/// A stage with two to-do items.
fn make_stage(phase: Phase, description: String, first: String, second: String) -> (st: PlanStage)
    ensures
        stage_model(st) == (phase, description@, seq![first@, second@]),
{
    let ghost f = first@;
    let ghost g = second@;
    let st = PlanStage { phase, description, todo_items: vec![first, second] };
    assert(sviews(st.todo_items@) =~= seq![f, g]);
    st
}

/// The three stages for task `d`.
fn make_stages(d: &str) -> (v: Vec<PlanStage>)
    ensures
        v@.map_values(|st: PlanStage| stage_model(st)) == plan_stages(d@),
{
    let mut red_first = cat("定义 ", d);
    push_str(&mut red_first, " 的接口/签名");
    let red = make_stage(
        Phase::Red,
        cat("编写失败测试 — ", d),
        red_first,
        owned("编写最小断言验证预期行为 — 预期编译失败或测试失败"),
    );
    let green = make_stage(
        Phase::Green,
        cat("实现最小通过 — ", d),
        owned("编写最简实现使 RED 测试通过"),
        owned("不做额外优化，仅满足测试"),
    );
    let refactor = make_stage(
        Phase::Refactor,
        cat("重构优化 — ", d),
        owned("消除重复/冗余，保持测试通过"),
        owned("提取公共逻辑，优化命名和结构"),
    );
    let v = vec![red, green, refactor];
    assert(v@.map_values(|st: PlanStage| stage_model(st)) =~= plan_stages(d@));
    v
}

/// Detects the `--deep` flag in a message.
///
/// Returns the three-stage plan for the task after the flag when the
/// message contains the flag, and `None` otherwise.
pub fn detect_deep_plan(input: &str) -> (r: Option<DeepPlan>)
    ensures
        r is Some <==> contains(input@, deep_flag()),
        r matches Some(plan) ==> plan.stages@.map_values(|st: PlanStage| stage_model(st))
            == plan_stages(task_desc(input@)),
{
    if !crate::text::str_contains(input, "--deep") {
        return None;
    }
    let d = extract_task(input);
    Some(DeepPlan { stages: make_stages(d.as_str()) })
}

/// The to-do lines of a stage.
pub open spec fn render_items(items: Seq<Seq<char>>) -> Seq<char>
    decreases items.len(),
{
    if items.len() == 0 {
        Seq::empty()
    } else {
        render_items(items.drop_last()) + "- [ ] "@ + items.last() + "\n"@
    }
}

/// The text of a sequence of stages.
pub open spec fn render_stages(ss: Seq<(Phase, Seq<char>, Seq<Seq<char>>)>) -> Seq<char>
    decreases ss.len(),
{
    if ss.len() == 0 {
        Seq::empty()
    } else {
        render_stages(ss.drop_last()) + "### "@ + ss.last().0.label() + " — "@ + ss.last().1
            + "\n"@ + render_items(ss.last().2) + "\n"@
    }
}

/// The template text of the plan for task `d`.
pub open spec fn plan_text(d: Seq<char>) -> Seq<char> {
    "## Plan (--deep TDD 骨架)\n\n"@ + render_stages(plan_stages(d))
        + "---\n*生成于每次回灌周期 — 参照 RED/GREEN/REFACTOR 循环*\n"@
}

/// Renders the plan for a message as a to-do template; the empty string
/// when the message does not contain `--deep`.
pub fn generate_deep_plan(input: &str) -> (s: String)
    ensures
        s@ == if contains(input@, deep_flag()) {
            plan_text(task_desc(input@))
        } else {
            Seq::empty()
        },
{
    let plan = match detect_deep_plan(input) {
        Some(p) => p,
        None => return String::new(),
    };
    let ghost ms = plan.stages@.map_values(|st: PlanStage| stage_model(st));
    let mut output = String::new();
    push_str(&mut output, "## Plan (--deep TDD 骨架)\n\n");
    let ghost head = output@;
    let mut i: usize = 0;
    while i < plan.stages.len()
        invariant
            i <= plan.stages.len(),
            ms == plan.stages@.map_values(|st: PlanStage| stage_model(st)),
            output@ == head + render_stages(ms.take(i as int)),
        decreases plan.stages.len() - i,
    {
        let stage = &plan.stages[i];
        let ghost before = output@;
        push_str(&mut output, "### ");
        push_str(&mut output, stage.phase.as_str());
        push_str(&mut output, " — ");
        push_str(&mut output, stage.description.as_str());
        push_str(&mut output, "\n");
        let ghost mid = output@;
        let mut j: usize = 0;
        while j < stage.todo_items.len()
            invariant
                j <= stage.todo_items.len(),
                output@ == mid + render_items(sviews(stage.todo_items@).take(j as int)),
            decreases stage.todo_items.len() - j,
        {
            push_str(&mut output, "- [ ] ");
            push_str(&mut output, stage.todo_items[j].as_str());
            push_str(&mut output, "\n");
            proof {
                let t = sviews(stage.todo_items@).take(j + 1);
                assert(t.drop_last() =~= sviews(stage.todo_items@).take(j as int));
                assert(output@ =~= mid + render_items(t));
            }
            j += 1;
        }
        push_char_nl(&mut output);
        proof {
            assert(sviews(stage.todo_items@).take(stage.todo_items@.len() as int) =~= sviews(
                stage.todo_items@,
            ));
            let t = ms.take(i + 1);
            assert(t.drop_last() =~= ms.take(i as int));
            assert(t.last() == stage_model(*stage));
            assert(output@ =~= head + render_stages(t));
        }
        i += 1;
    }
    push_str(&mut output, "---\n*生成于每次回灌周期 — 参照 RED/GREEN/REFACTOR 循环*\n");
    proof {
        assert(ms.take(ms.len() as int) =~= ms);
    }
    output
}

/// Appends a line break.
fn push_char_nl(s: &mut String)
    ensures
        final(s)@ == old(s)@ + "\n"@,
{
    push_str(s, "\n");
}

} // verus!
