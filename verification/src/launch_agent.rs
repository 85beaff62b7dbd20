//! The login-item `LaunchAgent` of the background agent.
//!
//! When `launch_at_login` is on, a plist under `~/Library/LaunchAgents` is
//! kept equal to the one rendered for the running agent executable, so the
//! next login relaunches it. `KeepAlive` is `{SuccessfulExit: false}`: a crash
//! is respawned, a clean quit is not. The program arguments are the
//! executable alone (the agent always runs headless). When the setting is
//! off the plist is moved away. On every reconcile the legacy GUI plist is
//! moved away when it is present and readable; an unreadable one is left
//! alone.
//!
//! This module decides; the caller reads the files, performs the plan and
//! reports failures.

use vstd::prelude::*;
use crate::xml::{xml_escape, xml_escape_spec, xml_unescape_spec, lemma_unescape_escape,
    lemma_escape_has_no_markup, lemma_escape_adds_no_text, occurs_at, contains_text};

verus! {

/// Stable launch-agent identifier for the background agent.
pub const LABEL: &'static str = "io.github.ruofanyou.nativelogi.agent";

/// The pre-split GUI autostart label, removed on migration.
pub const LEGACY_LABEL: &'static str = "org.openlogi.openlogi";

/// Name given in the Trash to a plist without a usable file name.
pub const TRASH_FALLBACK_NAME: &'static str = "NativeLogi.plist";

/// The plist text up to the label.
pub const PLIST_HEAD: &'static str = "<?xml version=\"1.0\" encoding=\"UTF-8\"?>\n\
    <!DOCTYPE plist PUBLIC \"-//Apple//DTD PLIST 1.0//EN\" \
    \"http://www.apple.com/DTD/PropertyList-1.0.dtd\">\n\
    <plist version=\"1.0\">\n\
    <dict>\n  \
    <key>Label</key>\n  \
    <string>";

/// The plist text between the label and the executable path.
pub const PLIST_PROGRAM: &'static str = "</string>\n  \
    <key>ProgramArguments</key>\n  \
    <array>\n    \
    <string>";

/// The plist text after the executable path.
pub const PLIST_TAIL: &'static str = "</string>\n  \
    </array>\n  \
    <key>RunAtLoad</key>\n  \
    <true/>\n  \
    <key>KeepAlive</key>\n  \
    <dict>\n    \
    <key>SuccessfulExit</key>\n    \
    <false/>\n  \
    </dict>\n\
    </dict>\n\
    </plist>\n";

/// Everything of the plist before the escaped executable path.
pub open spec fn plist_prefix() -> Seq<char> {
    PLIST_HEAD@ + LABEL@ + PLIST_PROGRAM@
}

/// The plist that launches `exe` at login.
pub open spec fn rendered_plist(exe: Seq<char>) -> Seq<char> {
    plist_prefix() + xml_escape_spec(exe) + PLIST_TAIL@
}

/// Renders the LaunchAgent plist for the executable at `exe`, whose path is
/// XML-escaped so that `&`, `<` and `>` (legal in file names) cannot make the
/// plist malformed.
pub fn render_plist(exe: &str) -> (res: String)
    ensures
        res@ == rendered_plist(exe@),
{
    let escaped = xml_escape(exe);
    let mut out = String::new();
    out.push_str(PLIST_HEAD);
    out.push_str(LABEL);
    out.push_str(PLIST_PROGRAM);
    out.push_str(escaped.as_str());
    out.push_str(PLIST_TAIL);
    assert(out@ =~= rendered_plist(exe@));
    out
}

/// The file name under `~/Library/LaunchAgents` of the plist for `label`.
pub open spec fn plist_file_name_spec(label: Seq<char>) -> Seq<char> {
    label + seq!['.', 'p', 'l', 'i', 's', 't']
}

/// Returns `{label}.plist`.
pub fn plist_file_name(label: &str) -> (res: String)
    ensures
        res@ == plist_file_name_spec(label@),
        res@.len() == label@.len() + 6,
        res@.subrange(0, label@.len() as int) == label@,
        res@.subrange(label@.len() as int, res@.len() as int) == seq!['.', 'p', 'l', 'i', 's', 't'],
{
    let mut out = String::new();
    out.push_str(label);
    out.push_str(".plist");
    proof {
        reveal_strlit(".plist");
    }
    assert(out@ =~= plist_file_name_spec(label@));
    assert(out@.subrange(0, label@.len() as int) =~= label@);
    assert(out@.subrange(label@.len() as int, out@.len() as int) =~= seq!['.', 'p', 'l', 'i', 's', 't']);
    out
}

/// What to do with the agent's plist file, as a value of the model.
pub enum AgentStep {
    /// The file already holds the wanted plist.
    AlreadyCurrent,
    /// Write this text to the file, creating its directory.
    Install(Seq<char>),
    /// Move the file to the Trash.
    MoveToTrash,
    /// There is no file and none is wanted.
    AlreadyAbsent,
}

/// What to do with the agent's plist file.
#[derive(Debug)]
pub enum AgentAction {
    /// The file already holds the wanted plist.
    AlreadyCurrent,
    /// Write this text to the file, creating its directory.
    Install(String),
    /// Move the file to the Trash.
    MoveToTrash,
    /// There is no file and none is wanted.
    AlreadyAbsent,
}

impl View for AgentAction {
    type V = AgentStep;

    open spec fn view(&self) -> AgentStep {
        match self {
            AgentAction::AlreadyCurrent => AgentStep::AlreadyCurrent,
            AgentAction::Install(text) => AgentStep::Install(text@),
            AgentAction::MoveToTrash => AgentStep::MoveToTrash,
            AgentAction::AlreadyAbsent => AgentStep::AlreadyAbsent,
        }
    }
}

/// The plist that should be on disk: the rendered one when autostart is on,
/// none when it is off.
pub open spec fn desired_plist(enabled: bool, exe: Seq<char>) -> Option<Seq<char>> {
    if enabled {
        Some(rendered_plist(exe))
    } else {
        None
    }
}

/// The text of a file that could be read, or `None`.
pub open spec fn file_text(current: &Option<String>) -> Option<Seq<char>> {
    match current {
        Some(text) => Some(text@),
        None => None,
    }
}

/// The step that brings the file from `current` to `desired`.
pub open spec fn agent_step(desired: Option<Seq<char>>, current: Option<Seq<char>>) -> AgentStep {
    match desired {
        Some(want) => if current == Some(want) {
            AgentStep::AlreadyCurrent
        } else {
            AgentStep::Install(want)
        },
        None => if current is Some {
            AgentStep::MoveToTrash
        } else {
            AgentStep::AlreadyAbsent
        },
    }
}

/// The file's content after a step has been carried out.
pub open spec fn apply_step(step: AgentStep, current: Option<Seq<char>>) -> Option<Seq<char>> {
    match step {
        AgentStep::AlreadyCurrent => current,
        AgentStep::Install(text) => Some(text),
        AgentStep::MoveToTrash => None,
        AgentStep::AlreadyAbsent => current,
    }
}

/// A step that touches nothing.
pub open spec fn is_noop(step: AgentStep) -> bool {
    step is AlreadyCurrent || step is AlreadyAbsent
}

/// Decides what to do with the agent's plist, given whether autostart is
/// on, the agent executable's path and the file's current text (`None` when
/// it is absent or unreadable).
pub fn agent_action(enabled: bool, exe: &str, current: &Option<String>) -> (action: AgentAction)
    ensures
        action@ == agent_step(desired_plist(enabled, exe@), file_text(current)),
        enabled ==> match action@ {
            AgentStep::AlreadyCurrent => file_text(current) == Some(rendered_plist(exe@)),
            AgentStep::Install(text) => text == rendered_plist(exe@) && file_text(current) != Some(
                rendered_plist(exe@),
            ),
            _ => false,
        },
        !enabled ==> match action@ {
            AgentStep::MoveToTrash => current is Some,
            AgentStep::AlreadyAbsent => current is None,
            _ => false,
        },
{
    if enabled {
        let want = render_plist(exe);
        match current {
            Some(have) => {
                if want == *have {
                    AgentAction::AlreadyCurrent
                } else {
                    AgentAction::Install(want)
                }
            },
            None => AgentAction::Install(want),
        }
    } else {
        match current {
            Some(_) => AgentAction::MoveToTrash,
            None => AgentAction::AlreadyAbsent,
        }
    }
}

/// What the caller found at the legacy GUI plist's path.
#[derive(Debug, Clone, Copy, PartialEq, Eq, Structural)]
pub enum LegacyPlist {
    /// No file there.
    Absent,
    /// A file that this process cannot read; it is left alone.
    Unreadable,
    /// A file this process can read.
    Readable,
}

/// Whether a reconcile moves the legacy plist: only a present, readable one.
pub open spec fn moves_legacy(legacy: LegacyPlist) -> bool {
    legacy is Readable
}

/// The legacy plist after the reconcile's move, if any, has been carried out.
pub open spec fn legacy_after(legacy: LegacyPlist) -> LegacyPlist {
    if moves_legacy(legacy) {
        LegacyPlist::Absent
    } else {
        legacy
    }
}

/// Whether to move the legacy GUI plist to the Trash: exactly when it is
/// present and readable, whatever becomes of the agent's own plist. A caller
/// that cannot gather the agent's inputs still asks this before giving up.
pub fn legacy_move(legacy: LegacyPlist) -> (res: bool)
    ensures
        res == moves_legacy(legacy),
        res <==> legacy == LegacyPlist::Readable,
{
    match legacy {
        LegacyPlist::Readable => true,
        LegacyPlist::Unreadable => false,
        LegacyPlist::Absent => false,
    }
}

/// Everything one reconcile does.
#[derive(Debug)]
pub struct ReconcilePlan {
    /// Move the legacy GUI plist to the Trash first.
    pub move_legacy_to_trash: bool,
    /// Then this, on the agent's plist.
    pub agent: AgentAction,
}

/// Reconciles the agent's autostart with `enabled` and clears the legacy GUI
/// LaunchAgent: a present and readable legacy plist is moved away (an
/// unreadable one is left in place), and the agent's plist is brought to
/// `desired_plist`.
pub fn reconcile(enabled: bool, exe: &str, current: &Option<String>, legacy: LegacyPlist) -> (plan:
    ReconcilePlan)
    ensures
        plan.move_legacy_to_trash == moves_legacy(legacy),
        plan.move_legacy_to_trash <==> legacy == LegacyPlist::Readable,
        plan.agent@ == agent_step(desired_plist(enabled, exe@), file_text(current)),
        enabled ==> match plan.agent@ {
            AgentStep::AlreadyCurrent => file_text(current) == Some(rendered_plist(exe@)),
            AgentStep::Install(text) => text == rendered_plist(exe@) && file_text(current) != Some(
                rendered_plist(exe@),
            ),
            _ => false,
        },
        !enabled ==> match plan.agent@ {
            AgentStep::MoveToTrash => current is Some,
            AgentStep::AlreadyAbsent => current is None,
            _ => false,
        },
{
    ReconcilePlan {
        move_legacy_to_trash: legacy_move(legacy),
        agent: agent_action(enabled, exe, current),
    }
}


/// What the agent step means: with autostart on, after the step the file
/// holds the plist rendered for `exe`, and the step touches nothing exactly
/// when the file held it already; with autostart off, after the step there is
/// no file, and nothing is touched exactly when there was none.
pub proof fn lemma_agent_step_meaning(enabled: bool, exe: Seq<char>, current: Option<Seq<char>>)
    ensures
        ({
            let step = agent_step(desired_plist(enabled, exe), current);
            &&& enabled ==> apply_step(step, current) == Some(rendered_plist(exe))
            &&& enabled ==> (is_noop(step) <==> current == Some(rendered_plist(exe)))
            &&& enabled ==> (step is Install ==> step->0 == rendered_plist(exe))
            &&& !enabled ==> apply_step(step, current) is None
            &&& !enabled ==> (is_noop(step) <==> current is None)
        }),
{
}

/// After a reconcile has been carried out, the agent's plist is exactly the
/// desired one: the rendered plist when autostart is on, absent when off.
pub proof fn lemma_reconcile_reaches_desired(enabled: bool, exe: Seq<char>, current: Option<Seq<char>>)
    ensures
        apply_step(agent_step(desired_plist(enabled, exe), current), current)
            == desired_plist(enabled, exe),
{
}

/// Reconcile is idempotent: run again on the state it left behind, it
/// touches nothing, neither the agent's plist nor the legacy one (which is
/// then absent, or unreadable and left alone).
pub proof fn lemma_reconcile_idempotent(
    enabled: bool,
    exe: Seq<char>,
    current: Option<Seq<char>>,
    legacy: LegacyPlist,
)
    ensures
        ({
            let desired = desired_plist(enabled, exe);
            let after = apply_step(agent_step(desired, current), current);
            &&& is_noop(agent_step(desired, after))
            &&& apply_step(agent_step(desired, after), after) == after
            &&& !moves_legacy(legacy_after(legacy))
            &&& legacy_after(legacy_after(legacy)) == legacy_after(legacy)
        }),
{
}

/// The plist launches exactly `exe`: the text of its single
/// `ProgramArguments` string holds no `<`, so the element ends at the
/// template's `</string>`, and it reads back as `exe`.
pub proof fn lemma_plist_program_is_exe(exe: Seq<char>)
    ensures
        ({
            let doc = rendered_plist(exe);
            let start = plist_prefix().len() as int;
            let end = doc.len() - PLIST_TAIL@.len();
            let arg = doc.subrange(start, end);
            &&& doc.subrange(0, start) == plist_prefix()
            &&& doc.subrange(end, doc.len() as int) == PLIST_TAIL@
            &&& xml_unescape_spec(arg) == exe
            &&& forall|i: int| 0 <= i < arg.len() ==> #[trigger] arg[i] != '<'
        }),
{
    let doc = rendered_plist(exe);
    let start = plist_prefix().len() as int;
    let end = doc.len() - PLIST_TAIL@.len();
    assert(doc.subrange(start, end) =~= xml_escape_spec(exe));
    assert(doc.subrange(0, start) =~= plist_prefix());
    assert(doc.subrange(end, doc.len() as int) =~= PLIST_TAIL@);
    lemma_unescape_escape(exe);
    lemma_escape_has_no_markup(exe);
}


/// The flag that once made the GUI start hidden.
pub open spec fn minimized_flag() -> Seq<char> {
    seq!['-', '-', 'm', 'i', 'n', 'i', 'm', 'i', 'z', 'e', 'd']
}

/// Facts about the template text: it holds no `z`, the part before the
/// executable ends with `>` and the part after it begins with `<`.
proof fn lemma_template_chars()
    ensures
        forall|k: int| 0 <= k < plist_prefix().len() ==> #[trigger] plist_prefix()[k] != 'z',
        forall|k: int| 0 <= k < PLIST_TAIL@.len() ==> #[trigger] PLIST_TAIL@[k] != 'z',
        plist_prefix().len() > 0,
        plist_prefix()[plist_prefix().len() - 1] == '>',
        PLIST_TAIL@.len() > 0,
        PLIST_TAIL@[0] == '<',
{
    reveal_strlit("<?xml version=\"1.0\" encoding=\"UTF-8\"?>\n\
    <!DOCTYPE plist PUBLIC \"-//Apple//DTD PLIST 1.0//EN\" \
    \"http://www.apple.com/DTD/PropertyList-1.0.dtd\">\n\
    <plist version=\"1.0\">\n\
    <dict>\n  \
    <key>Label</key>\n  \
    <string>");
    reveal_strlit("io.github.ruofanyou.nativelogi.agent");
    reveal_strlit("</string>\n  \
    <key>ProgramArguments</key>\n  \
    <array>\n    \
    <string>");
    reveal_strlit("</string>\n  \
    </array>\n  \
    <key>RunAtLoad</key>\n  \
    <true/>\n  \
    <key>KeepAlive</key>\n  \
    <dict>\n    \
    <key>SuccessfulExit</key>\n    \
    <false/>\n  \
    </dict>\n\
    </dict>\n\
    </plist>\n");
    let head = PLIST_HEAD@;
    let label = LABEL@;
    let program = PLIST_PROGRAM@;
    assert forall|k: int| 0 <= k < head.len() implies #[trigger] head[k] != 'z' by {}
    assert forall|k: int| 0 <= k < label.len() implies #[trigger] label[k] != 'z' by {}
    assert forall|k: int| 0 <= k < program.len() implies #[trigger] program[k] != 'z' by {}
    assert forall|k: int| 0 <= k < PLIST_TAIL@.len() implies #[trigger] PLIST_TAIL@[k] != 'z' by {}
    assert forall|k: int| 0 <= k < plist_prefix().len() implies #[trigger] plist_prefix()[k] != 'z' by {
        if k < head.len() {
            assert(plist_prefix()[k] == head[k]);
        } else if k < head.len() + label.len() {
            assert(plist_prefix()[k] == label[k - head.len()]);
        } else {
            assert(plist_prefix()[k] == program[k - head.len() - label.len()]);
        }
    }
    assert(program[program.len() - 1] == '>');
    assert(plist_prefix()[plist_prefix().len() - 1] == program[program.len() - 1]);
}


/// The plist names the agent's label, starts it at load, and keeps it alive
/// only after an unsuccessful exit (`KeepAlive` is `{SuccessfulExit: false}`),
/// whatever the executable.
pub proof fn lemma_plist_keeps_alive(exe: Seq<char>)
    ensures
        contains_text(
            rendered_plist(exe),
            "<key>Label</key>\n  <string>io.github.ruofanyou.nativelogi.agent</string>"@,
        ),
        contains_text(rendered_plist(exe), "<key>RunAtLoad</key>\n  <true/>"@),
        contains_text(
            rendered_plist(exe),
            "<key>KeepAlive</key>\n  <dict>\n    <key>SuccessfulExit</key>\n    <false/>\n  </dict>"@,
        ),
{
    reveal_strlit("<?xml version=\"1.0\" encoding=\"UTF-8\"?>\n\
    <!DOCTYPE plist PUBLIC \"-//Apple//DTD PLIST 1.0//EN\" \
    \"http://www.apple.com/DTD/PropertyList-1.0.dtd\">\n\
    <plist version=\"1.0\">\n\
    <dict>\n  \
    <key>Label</key>\n  \
    <string>");
    reveal_strlit("io.github.ruofanyou.nativelogi.agent");
    reveal_strlit("</string>\n  \
    <key>ProgramArguments</key>\n  \
    <array>\n    \
    <string>");
    reveal_strlit("</string>\n  \
    </array>\n  \
    <key>RunAtLoad</key>\n  \
    <true/>\n  \
    <key>KeepAlive</key>\n  \
    <dict>\n    \
    <key>SuccessfulExit</key>\n    \
    <false/>\n  \
    </dict>\n\
    </dict>\n\
    </plist>\n");
    reveal_strlit("<key>Label</key>\n  <string>io.github.ruofanyou.nativelogi.agent</string>");
    reveal_strlit("<key>RunAtLoad</key>\n  <true/>");
    reveal_strlit(
        "<key>KeepAlive</key>\n  <dict>\n    <key>SuccessfulExit</key>\n    <false/>\n  </dict>",
    );
    let doc = rendered_plist(exe);
    let head = PLIST_HEAD@;
    let label = LABEL@;
    let program = PLIST_PROGRAM@;
    let tail = PLIST_TAIL@;
    let esc = xml_escape_spec(exe);
    assert(doc == head + label + program + esc + tail);
    let label_elem = "<key>Label</key>\n  <string>io.github.ruofanyou.nativelogi.agent</string>"@;
    let run = "<key>RunAtLoad</key>\n  <true/>"@;
    let keep = "<key>KeepAlive</key>\n  <dict>\n    <key>SuccessfulExit</key>\n    <false/>\n  </dict>"@;
    let i = head.len() - 27;
    assert(doc.subrange(i, i + label_elem.len()) =~= label_elem) by {
        assert forall|k: int| 0 <= k < label_elem.len() implies doc.subrange(
            i,
            i + label_elem.len(),
        )[k] == label_elem[k] by {
            if k < 27 {
                assert(doc[i + k] == head[i + k]);
            } else if k < 27 + label.len() {
                assert(doc[i + k] == label[k - 27]);
            } else {
                assert(doc[i + k] == program[k - 27 - label.len()]);
            }
        }
    }
    assert(occurs_at(doc, label_elem, i));
    let t = doc.len() - tail.len();
    assert(doc.subrange(t + 23, t + 23 + run.len()) =~= run) by {
        assert forall|k: int| 0 <= k < run.len() implies doc.subrange(t + 23, t + 23 + run.len())[k]
            == run[k] by {
            assert(doc[t + 23 + k] == tail[23 + k]);
        }
    }
    assert(occurs_at(doc, run, t + 23));
    assert(doc.subrange(t + 56, t + 56 + keep.len()) =~= keep) by {
        assert forall|k: int| 0 <= k < keep.len() implies doc.subrange(t + 56, t + 56 + keep.len())[k]
            == keep[k] by {
            assert(doc[t + 56 + k] == tail[56 + k]);
        }
    }
    assert(occurs_at(doc, keep, t + 56));
}

/// The agent never starts hidden: the rendered plist holds `--minimized`
/// only where the executable's own path does.
pub proof fn lemma_plist_never_minimized(exe: Seq<char>)
    ensures
        contains_text(rendered_plist(exe), minimized_flag()) ==> contains_text(exe, minimized_flag()),
{
    if contains_text(rendered_plist(exe), minimized_flag()) {
        let doc = rendered_plist(exe);
        let p = minimized_flag();
        let i = choose|i: int| occurs_at(doc, p, i);
        let pre = plist_prefix();
        let esc = xml_escape_spec(exe);
        let tail = PLIST_TAIL@;
        lemma_template_chars();
        assert(doc == pre + esc + tail);
        let n = pre.len() as int;
        let m = esc.len() as int;
        assert(doc.subrange(i, i + 11)[8] == doc[i + 8]);
        assert(doc[i + 8] == 'z');
        if i + 8 < n {
            assert(doc[i + 8] == pre[i + 8]);
        }
        if i + 8 >= n + m {
            assert(doc[i + 8] == tail[i + 8 - n - m]);
        }
        if i < n {
            assert(doc[n - 1] == pre[n - 1]);
            assert(doc.subrange(i, i + 11)[n - 1 - i] == doc[n - 1]);
        }
        if i + 11 > n + m {
            assert(doc[n + m] == tail[0]);
            assert(doc.subrange(i, i + 11)[n + m - i] == doc[n + m]);
        }
        assert(occurs_at(esc, p, i - n)) by {
            assert(esc.subrange(i - n, i - n + 11) =~= doc.subrange(i, i + 11));
        }
        lemma_escape_adds_no_text(exe, p, i - n);
    }
}

} // verus!
