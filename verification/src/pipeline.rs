//! The loop that both preprocessors run: the stages of a pass in their
//! order, each followed by a check, and pass after pass until the text holds
//! no directive.
//!
//! The check protects the escapes of the text again and counts its braces,
//! since what a stage puts into the text is not escaped and may hold
//! anything.

use crate::error::{Diagnostic, DiagnosticView, ErrorKind, Fault, FaultView};
use crate::escape::EscapeScheme;
use crate::files::SourceFile;
use crate::macros::MacroTable;
use crate::preproc::{
    find_directive, fresh, limit_reached, next_directive, run_stage, stage_run, Preprocessed,
    Stage, Workspace, WorkspaceView,
};
use crate::text::{count_char, occurrences, to_chars, to_string};
use vstd::prelude::*;

verus! {

/// Whether a text holds as many `{` as `}`.
pub open spec fn balanced(s: Seq<char>) -> bool {
    occurrences(s, '{') == occurrences(s, '}')
}

/// The error for a text whose braces are not balanced, with both counts.
pub open spec fn balance_fault(s: Seq<char>) -> Option<DiagnosticView> {
    if balanced(s) {
        None
    } else {
        Some(
            DiagnosticView {
                kind: ErrorKind::Directive,
                file: None,
                line: None,
                fault: FaultView::UnbalancedBraces {
                    left: occurrences(s, '{') as usize,
                    right: occurrences(s, '}') as usize,
                },
            },
        )
    }
}

/// The state once the escapes of its text are protected and its braces
/// are found balanced.
pub open spec fn checked(scheme: EscapeScheme, st: WorkspaceView) -> Result<
    WorkspaceView,
    DiagnosticView,
> {
    match scheme.protected(st.text) {
        Err(e) => Err(e),
        Ok(text) => match balance_fault(text) {
            Some(e) => Err(e),
            None => Ok(WorkspaceView { text, ..st }),
        },
    }
}

/// The state after one stage and the check that follows it.
pub open spec fn stage_checked(
    scheme: EscapeScheme,
    stage: Stage,
    st: WorkspaceView,
    files: Seq<SourceFile>,
    fuel: nat,
) -> Result<WorkspaceView, DiagnosticView> {
    match stage_run(stage, st, files, fuel) {
        Err(e) => Err(e),
        Ok(next) => checked(scheme, next),
    }
}

/// The state after the first `n` stages of `order`, each followed by its
/// check.
pub open spec fn pass_upto(
    scheme: EscapeScheme,
    order: Seq<Stage>,
    st: WorkspaceView,
    files: Seq<SourceFile>,
    fuel: nat,
    n: nat,
) -> Result<WorkspaceView, DiagnosticView>
    decreases n,
{
    if n == 0 || n > order.len() {
        Ok(st)
    } else {
        match pass_upto(scheme, order, st, files, fuel, (n - 1) as nat) {
            Err(e) => Err(e),
            Ok(mid) => stage_checked(scheme, order[n - 1], mid, files, fuel),
        }
    }
}

/// The state after one pass: all the stages of `order`, in their order.
pub open spec fn pass(
    scheme: EscapeScheme,
    order: Seq<Stage>,
    st: WorkspaceView,
    files: Seq<SourceFile>,
    fuel: nat,
) -> Result<WorkspaceView, DiagnosticView> {
    pass_upto(scheme, order, st, files, fuel, order.len())
}

/// Whether the text holds a directive.
pub open spec fn work_left(s: Seq<char>) -> bool {
    next_directive(s, 0, Stage::Everything) is Some
}

/// The state after passes have been run until the text holds no directive;
/// an error once `rounds` passes have been run and one is left.
pub open spec fn passes(
    scheme: EscapeScheme,
    order: Seq<Stage>,
    st: WorkspaceView,
    files: Seq<SourceFile>,
    fuel: nat,
    rounds: nat,
) -> Result<WorkspaceView, DiagnosticView>
    decreases rounds,
{
    if !work_left(st.text) {
        Ok(st)
    } else if rounds == 0 {
        Err(limit_reached())
    } else {
        match pass(scheme, order, st, files, fuel) {
            Err(e) => Err(e),
            Ok(next) => passes(scheme, order, next, files, fuel, (rounds - 1) as nat),
        }
    }
}

/// The result of preprocessing `src` with the stages `order`: its escapes
/// are protected and its braces counted, then passes are run until the text
/// holds no directive. No stage resolves more than `limit` directives at a
/// time and no more than `limit` passes are run.
pub open spec fn preprocessed_with(
    scheme: EscapeScheme,
    order: Seq<Stage>,
    src: Seq<char>,
    files: Seq<SourceFile>,
    limit: nat,
) -> Result<WorkspaceView, DiagnosticView> {
    match checked(scheme, fresh(src)) {
        Err(e) => Err(e),
        Ok(st) => passes(scheme, order, st, files, limit, limit),
    }
}

/// Brace balance after every stage: the text that a stage and its check
/// leave holds as many `{` as `}`.
pub proof fn lemma_balanced_after_stage(
    scheme: EscapeScheme,
    stage: Stage,
    st: WorkspaceView,
    files: Seq<SourceFile>,
    fuel: nat,
)
    ensures
        stage_checked(scheme, stage, st, files, fuel) is Ok ==> balanced(
            stage_checked(scheme, stage, st, files, fuel)->Ok_0.text,
        ),
{
}

/// Brace balance after every pass: the stages of a pass, run over a
/// balanced text, leave a balanced text.
pub proof fn lemma_balanced_after_pass(
    scheme: EscapeScheme,
    order: Seq<Stage>,
    st: WorkspaceView,
    files: Seq<SourceFile>,
    fuel: nat,
    n: nat,
)
    requires
        balanced(st.text),
    ensures
        pass_upto(scheme, order, st, files, fuel, n) is Ok ==> balanced(
            pass_upto(scheme, order, st, files, fuel, n)->Ok_0.text,
        ),
    decreases n,
{
    if n == 0 || n > order.len() {
    } else {
        lemma_balanced_after_pass(scheme, order, st, files, fuel, (n - 1) as nat);
    }
}

/// Whatever passes are run over a balanced text, the text they leave is
/// balanced and holds no directive.
pub proof fn lemma_passes_end_well(
    scheme: EscapeScheme,
    order: Seq<Stage>,
    st: WorkspaceView,
    files: Seq<SourceFile>,
    fuel: nat,
    rounds: nat,
)
    requires
        balanced(st.text),
    ensures
        passes(scheme, order, st, files, fuel, rounds) is Ok ==> {
            &&& balanced(passes(scheme, order, st, files, fuel, rounds)->Ok_0.text)
            &&& !work_left(passes(scheme, order, st, files, fuel, rounds)->Ok_0.text)
        },
    decreases rounds,
{
    if work_left(st.text) && rounds > 0 {
        lemma_balanced_after_pass(scheme, order, st, files, fuel, order.len());
        match pass(scheme, order, st, files, fuel) {
            Err(_) => {},
            Ok(next) => {
                lemma_passes_end_well(scheme, order, next, files, fuel, (rounds - 1) as nat);
            },
        }
    }
}

/// Brace balance of preprocessed text: every text that preprocessing
/// returns holds as many `{` as `}`, and no directive.
pub proof fn lemma_preprocessed_balanced(
    scheme: EscapeScheme,
    order: Seq<Stage>,
    src: Seq<char>,
    files: Seq<SourceFile>,
    limit: nat,
)
    ensures
        preprocessed_with(scheme, order, src, files, limit) is Ok ==> {
            &&& balanced(preprocessed_with(scheme, order, src, files, limit)->Ok_0.text)
            &&& !work_left(preprocessed_with(scheme, order, src, files, limit)->Ok_0.text)
        },
{
    match checked(scheme, fresh(src)) {
        Err(_) => {},
        Ok(st) => {
            lemma_passes_end_well(scheme, order, st, files, limit, limit);
        },
    }
}

/// The error of the first stages of a pass is the error of the pass.
proof fn lemma_pass_error_stays(
    scheme: EscapeScheme,
    order: Seq<Stage>,
    st: WorkspaceView,
    files: Seq<SourceFile>,
    fuel: nat,
    k: nat,
)
    requires
        k <= order.len(),
        pass_upto(scheme, order, st, files, fuel, k) is Err,
    ensures
        pass(scheme, order, st, files, fuel) == pass_upto(scheme, order, st, files, fuel, k),
    decreases order.len() - k,
{
    if k < order.len() {
        lemma_pass_error_stays(scheme, order, st, files, fuel, k + 1);
    }
}

/// Counts the braces of a text: succeeds where it holds as many `{` as `}`
/// and fails with both counts where it does not.
pub fn check_balance(text: &Vec<char>) -> (res: Result<(), Diagnostic>)
    ensures
        res is Ok <==> balanced(text@),
        match res {
            Ok(_) => balance_fault(text@) is None,
            Err(e) => balance_fault(text@) == Some(e@),
        },
{
    let left = count_char(text, '{');
    let right = count_char(text, '}');
    if left == right {
        Ok(())
    } else {
        Err(
            Diagnostic {
                kind: ErrorKind::Directive,
                file: None,
                line: None,
                fault: Fault::UnbalancedBraces { left, right },
            },
        )
    }
}

/// Protects the escapes of the working text and counts its braces.
pub fn check(scheme: EscapeScheme, st: Workspace) -> (res: Result<Workspace, Diagnostic>)
    ensures
        match res {
            Ok(out) => checked(scheme, st@) == Ok::<WorkspaceView, DiagnosticView>(out@)
                && balanced(out@.text),
            Err(e) => checked(scheme, st@) == Err::<WorkspaceView, DiagnosticView>(e@),
        },
{
    let mut ws = st;
    let text = match scheme.protect(&ws.text) {
        Ok(text) => text,
        Err(e) => {
            return Err(e);
        },
    };
    match check_balance(&text) {
        Err(e) => Err(e),
        Ok(_) => {
            ws.text = text;
            Ok(ws)
        },
    }
}

/// Runs one stage and the check that follows it; the text it returns is
/// balanced.
pub fn checked_stage(
    scheme: EscapeScheme,
    stage: Stage,
    st: Workspace,
    files: &Vec<SourceFile>,
    limit: usize,
) -> (res: Result<Workspace, Diagnostic>)
    ensures
        match res {
            Ok(out) => stage_checked(scheme, stage, st@, files@, limit as nat) == Ok::<
                WorkspaceView,
                DiagnosticView,
            >(out@) && balanced(out@.text),
            Err(e) => stage_checked(scheme, stage, st@, files@, limit as nat) == Err::<
                WorkspaceView,
                DiagnosticView,
            >(e@),
        },
{
    match run_stage(stage, st, files, limit) {
        Err(e) => Err(e),
        Ok(next) => check(scheme, next),
    }
}

/// Runs the stages of one pass, each followed by its check.
pub fn run_pass(
    scheme: EscapeScheme,
    order: &Vec<Stage>,
    st: Workspace,
    files: &Vec<SourceFile>,
    limit: usize,
) -> (res: Result<Workspace, Diagnostic>)
    ensures
        match res {
            Ok(out) => pass(scheme, order@, st@, files@, limit as nat) == Ok::<
                WorkspaceView,
                DiagnosticView,
            >(out@) && (order.len() > 0 ==> balanced(out@.text)),
            Err(e) => pass(scheme, order@, st@, files@, limit as nat) == Err::<
                WorkspaceView,
                DiagnosticView,
            >(e@),
        },
{
    let mut ws = st;
    let mut i: usize = 0;
    while i < order.len()
        invariant
            i <= order.len(),
            pass_upto(scheme, order@, st@, files@, limit as nat, i as nat) == Ok::<
                WorkspaceView,
                DiagnosticView,
            >(ws@),
            i > 0 ==> balanced(ws@.text),
        decreases order.len() - i,
    {
        match checked_stage(scheme, order[i], ws, files, limit) {
            Err(e) => {
                proof {
                    lemma_pass_error_stays(
                        scheme,
                        order@,
                        st@,
                        files@,
                        limit as nat,
                        (i + 1) as nat,
                    );
                }
                return Err(e);
            },
            Ok(next) => {
                ws = next;
            },
        }
        i += 1;
    }
    Ok(ws)
}

/// Preprocesses `src` with the stages `order`; see [`preprocessed_with`].
/// The text returned is balanced and holds no directive.
pub fn run(
    scheme: EscapeScheme,
    order: &Vec<Stage>,
    src: &str,
    files: &Vec<SourceFile>,
    limit: usize,
) -> (res: Result<Preprocessed, Diagnostic>)
    ensures
        match res {
            Ok(out) => {
                &&& preprocessed_with(scheme, order@, src@, files@, limit as nat) is Ok
                &&& preprocessed_with(scheme, order@, src@, files@, limit as nat)->Ok_0.text
                    == out.text@
                &&& preprocessed_with(scheme, order@, src@, files@, limit as nat)->Ok_0.warnings
                    == out.warnings@
                &&& balanced(out.text@)
                &&& !work_left(out.text@)
            },
            Err(e) => preprocessed_with(scheme, order@, src@, files@, limit as nat) == Err::<
                WorkspaceView,
                DiagnosticView,
            >(e@),
        },
{
    let start = Workspace { text: to_chars(src), macros: MacroTable::new(), warnings: Vec::new() };
    let ghost first = checked(scheme, fresh(src@));
    let mut ws = match check(scheme, start) {
        Ok(ws) => ws,
        Err(e) => {
            return Err(e);
        },
    };
    let mut rounds: usize = limit;
    loop
        invariant
            first == checked(scheme, fresh(src@)),
            first is Ok,
            balanced(ws@.text),
            passes(scheme, order@, first->Ok_0, files@, limit as nat, limit as nat) == passes(
                scheme,
                order@,
                ws@,
                files@,
                limit as nat,
                rounds as nat,
            ),
        decreases rounds,
    {
        if find_directive(&ws.text, Stage::Everything).is_none() {
            return Ok(Preprocessed { text: to_string(&ws.text), warnings: ws.warnings });
        }
        if rounds == 0 {
            return Err(
                Diagnostic { kind: ErrorKind::Directive, file: None, line: None, fault: Fault::ExpansionLimit },
            );
        }
        proof {
            lemma_balanced_after_pass(
                scheme,
                order@,
                ws@,
                files@,
                limit as nat,
                order@.len(),
            );
        }
        match run_pass(scheme, order, ws, files, limit) {
            Err(e) => {
                return Err(e);
            },
            Ok(next) => {
                ws = next;
                rounds -= 1;
            },
        }
    }
}

} // verus!
