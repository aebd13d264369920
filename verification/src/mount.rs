//! The steps that mount and unmount a drive. Each operation is a function
//! from what the actions taken so far have given to the next action, or to
//! the result: the caller carries out the action and asks again.

use crate::platform::{opt_view, views, Platform};
use crate::text::{
    after_marker, join, join3, starts_with, text_after_marker, trim, trim_end_matches, trimmed,
    without_trailing, CharSet,
};
use vstd::prelude::*;

verus! {

/// A program to run, with its arguments and what is written to its input.
#[derive(Clone, Debug, PartialEq, Eq)]
pub struct Command {
    pub program: String,
    pub args: Vec<String>,
    /// What is written to the program's standard input, if anything.
    pub input: Option<String>,
}

/// The mathematical form of a `Command`.
pub struct CommandView {
    pub program: Seq<char>,
    pub args: Seq<Seq<char>>,
    pub input: Option<Seq<char>>,
}

impl View for Command {
    type V = CommandView;

    open spec fn view(&self) -> CommandView {
        CommandView { program: self.program@, args: views(self.args@), input: opt_view(self.input) }
    }
}

/// What the caller is asked to do next.
#[derive(Clone, Debug, PartialEq, Eq)]
pub enum Action {
    /// Run a program and wait for it.
    Run(Command),
    /// Create a directory and the directories above it.
    CreateDir(String),
    /// Remove an empty directory; its outcome is not looked at.
    RemoveDir(String),
}

/// The mathematical form of an `Action`.
pub enum ActionView {
    Run(CommandView),
    CreateDir(Seq<char>),
    RemoveDir(Seq<char>),
}

impl View for Action {
    type V = ActionView;

    open spec fn view(&self) -> ActionView {
        match self {
            Action::Run(command) => ActionView::Run(command@),
            Action::CreateDir(path) => ActionView::CreateDir(path@),
            Action::RemoveDir(path) => ActionView::RemoveDir(path@),
        }
    }
}

/// What came of an action.
#[derive(Clone, Debug, PartialEq, Eq)]
pub enum Outcome {
    /// The action could not be begun: the program could not be started, the
    /// directory not created or removed. Holds the error's text.
    NotStarted(String),
    /// The program was started, and waiting for it failed. Holds the
    /// error's text.
    Interrupted(String),
    /// The action came to an end. A directory action that succeeded reports
    /// success and no output.
    Finished { success: bool, stdout: String, stderr: String },
}

/// The mathematical form of an `Outcome`.
pub enum OutcomeView {
    NotStarted(Seq<char>),
    Interrupted(Seq<char>),
    Finished { success: bool, stdout: Seq<char>, stderr: Seq<char> },
}

impl View for Outcome {
    type V = OutcomeView;

    open spec fn view(&self) -> OutcomeView {
        match self {
            Outcome::NotStarted(error) => OutcomeView::NotStarted(error@),
            Outcome::Interrupted(error) => OutcomeView::Interrupted(error@),
            Outcome::Finished { success, stdout, stderr } => OutcomeView::Finished {
                success: *success,
                stdout: stdout@,
                stderr: stderr@,
            },
        }
    }
}

impl OutcomeView {
    /// Whether the action came to an end and reported success.
    pub open spec fn succeeded(self) -> bool {
        self matches OutcomeView::Finished { success, .. } && success
    }
}

impl Outcome {
    /// Whether the action came to an end and reported success.
    pub fn succeeded(&self) -> (r: bool)
        ensures
            r == self@.succeeded(),
    {
        match self {
            Outcome::Finished { success, .. } => *success,
            _ => false,
        }
    }
}

/// What an operation asks for next: an action, or nothing more because it
/// has its result.
#[derive(Debug, PartialEq, Eq)]
pub enum Step<T> {
    /// Carry out the action, add what came of it to the outcomes, and ask again.
    Do(Action),
    /// The operation is over.
    Finish(Result<T, String>),
}

/// The mathematical form of a `Step`.
pub enum StepView<V> {
    Do(ActionView),
    Done(V),
    Failed(Seq<char>),
}

impl View for Step<String> {
    type V = StepView<Seq<char>>;

    open spec fn view(&self) -> StepView<Seq<char>> {
        match self {
            Step::Do(action) => StepView::Do(action@),
            Step::Finish(Ok(value)) => StepView::Done(value@),
            Step::Finish(Err(message)) => StepView::Failed(message@),
        }
    }
}

impl View for Step<()> {
    type V = StepView<()>;

    open spec fn view(&self) -> StepView<()> {
        match self {
            Step::Do(action) => StepView::Do(action@),
            Step::Finish(Ok(_)) => StepView::Done(()),
            Step::Finish(Err(message)) => StepView::Failed(message@),
        }
    }
}

/// The action that runs a program without input.
pub open spec fn run(program: Seq<char>, args: Seq<Seq<char>>) -> ActionView {
    ActionView::Run(CommandView { program, args, input: None })
}

/// The action that runs a program without input.
pub fn run_program(program: &str, args: Vec<String>) -> (action: Action)
    ensures
        action@ == run(program@, views(args@)),
{
    Action::Run(Command { program: program.to_owned(), args, input: None })
}

/// A list of two arguments.
pub fn args2(a: &str, b: &str) -> (args: Vec<String>)
    ensures
        views(args@) == seq![a@, b@],
{
    let mut args: Vec<String> = Vec::new();
    args.push(a.to_owned());
    args.push(b.to_owned());
    assert(views(args@) =~= seq![a@, b@]);
    args
}

/// A list of three arguments.
pub fn args3(a: &str, b: &str, c: &str) -> (args: Vec<String>)
    ensures
        views(args@) == seq![a@, b@, c@],
{
    let mut args: Vec<String> = Vec::new();
    args.push(a.to_owned());
    args.push(b.to_owned());
    args.push(c.to_owned());
    assert(views(args@) =~= seq![a@, b@, c@]);
    args
}

/// A list of four arguments.
pub fn args4(a: &str, b: &str, c: &str, d: &str) -> (args: Vec<String>)
    ensures
        views(args@) == seq![a@, b@, c@, d@],
{
    let mut args: Vec<String> = Vec::new();
    args.push(a.to_owned());
    args.push(b.to_owned());
    args.push(c.to_owned());
    args.push(d.to_owned());
    assert(views(args@) =~= seq![a@, b@, c@, d@]);
    args
}

/// The mount point that a mount tool of Linux announces: what follows
/// ` at ` in its output, trimmed and without the dots at its end; empty where
/// the output names none.
pub open spec fn announced_mount_point(stdout: Seq<char>) -> Seq<char> {
    match after_marker(stdout, " at "@) {
        Some(text) => without_trailing(trimmed(text), CharSet::Only('.')),
        None => Seq::empty(),
    }
}

/// The mount point that a mount tool of Linux announces.
pub fn parse_announced_mount_point(stdout: &str) -> (r: String)
    ensures
        r@ == announced_mount_point(stdout@),
{
    match text_after_marker(stdout, " at ") {
        Some(text) => trim_end_matches(trim(text.as_str()).as_str(), '.'),
        None => String::new(),
    }
}

/// The mount point that the disk utility of macOS reports: what follows
/// `mounted at ` in its output, trimmed; empty where the output names none.
pub open spec fn diskutil_mount_point(stdout: Seq<char>) -> Seq<char> {
    match after_marker(stdout, "mounted at "@) {
        Some(text) => trimmed(text),
        None => Seq::empty(),
    }
}

/// The mount point that the disk utility of macOS reports.
pub fn parse_diskutil_mount_point(stdout: &str) -> (r: String)
    ensures
        r@ == diskutil_mount_point(stdout@),
{
    match text_after_marker(stdout, "mounted at ") {
        Some(text) => trim(text.as_str()),
        None => String::new(),
    }
}

/// What is reported where a tool mounted the device and named no mount point.
pub open spec fn unnamed_mount_point(tool: Seq<char>, device_path: Seq<char>) -> Seq<char> {
    tool + " mounted "@ + device_path + " but named no mount point."@
}

/// The result of a mount that succeeded: the mount point that the tool
/// named, and an error where it named none. A success always carries a
/// mount point that is not empty.
pub open spec fn mounted_at(
    mount_point: Seq<char>,
    tool: Seq<char>,
    device_path: Seq<char>,
) -> StepView<Seq<char>> {
    if mount_point.len() > 0 {
        StepView::Done(mount_point)
    } else {
        StepView::Failed(unnamed_mount_point(tool, device_path))
    }
}

/// The result of a mount that succeeded.
pub fn report_mount_point(mount_point: String, tool: &str, device_path: &str) -> (step: Step<
    String,
>)
    ensures
        step@ == mounted_at(mount_point@, tool@, device_path@),
{
    if mount_point.as_str().unicode_len() > 0 {
        Step::Finish(Ok(mount_point))
    } else {
        let mut message = tool.to_owned();
        message.append(" mounted ");
        message.append(device_path);
        message.append(" but named no mount point.");
        Step::Finish(Err(message))
    }
}

/// What the disk utility of macOS came to where it did not succeed: its
/// failure to run, or its complaint.
pub open spec fn diskutil_failure(outcome: OutcomeView) -> Seq<char> {
    match outcome {
        OutcomeView::NotStarted(error) => "Failed to run diskutil: "@ + error,
        OutcomeView::Interrupted(error) => "Failed to run diskutil: "@ + error,
        OutcomeView::Finished { stderr, .. } => trimmed(stderr),
    }
}

/// What the disk utility of macOS came to where it did not succeed.
pub fn diskutil_failure_text(outcome: &Outcome) -> (r: String)
    ensures
        r@ == diskutil_failure(outcome@),
{
    match outcome {
        Outcome::NotStarted(error) => join("Failed to run diskutil: ", error.as_str()),
        Outcome::Interrupted(error) => join("Failed to run diskutil: ", error.as_str()),
        Outcome::Finished { stderr, .. } => trim(stderr.as_str()),
    }
}

/// The next step of mounting a device, after the outcomes given.
///
/// Linux asks the disk-management tool first; where that does not succeed,
/// it asks the desktop's mount front-end; where neither succeeds, the error
/// names the package to install. macOS asks its disk utility and reports
/// its complaint where it fails. The tool that succeeds ends the operation:
/// with the mount point that its output names, or with an error where it
/// names none. Windows mounts its drives itself: the operation fails
/// without an action.
pub open spec fn mount_drive_step(
    platform: Platform,
    device_path: Seq<char>,
    history: Seq<OutcomeView>,
) -> StepView<Seq<char>> {
    match platform {
        Platform::Windows => StepView::Failed(
            "Mount not supported on Windows - drives are auto-mounted"@,
        ),
        Platform::MacOs => if history.len() == 0 {
            StepView::Do(run("diskutil"@, seq!["mount"@, device_path]))
        } else if history[0].succeeded() {
            mounted_at(diskutil_mount_point(history[0]->stdout), "diskutil"@, device_path)
        } else {
            StepView::Failed(diskutil_failure(history[0]))
        },
        Platform::Linux => if history.len() == 0 {
            StepView::Do(
                run("udisksctl"@, seq!["mount"@, "-b"@, device_path, "--no-user-interaction"@]),
            )
        } else if history[0].succeeded() {
            mounted_at(announced_mount_point(history[0]->stdout), "udisksctl"@, device_path)
        } else if history.len() == 1 {
            StepView::Do(run("gio"@, seq!["mount"@, "-d"@, device_path]))
        } else if history[1].succeeded() {
            mounted_at(announced_mount_point(history[1]->stdout), "gio"@, device_path)
        } else {
            StepView::Failed(
                "Could not mount "@ + device_path + ". Install udisks2 for automatic mounting."@,
            )
        },
    }
}

/// The next step of mounting a device, after the outcomes given. A success
/// carries a mount point that is not empty.
pub fn mount_drive(platform: Platform, device_path: &str, history: &Vec<Outcome>) -> (step: Step<
    String,
>)
    ensures
        step@ == mount_drive_step(platform, device_path@, views(history@)),
        step@ is Done ==> step@->Done_0.len() > 0,
{
    match platform {
        Platform::Windows => Step::Finish(
            Err("Mount not supported on Windows - drives are auto-mounted".to_owned()),
        ),
        Platform::MacOs => {
            if history.len() == 0 {
                return Step::Do(run_program("diskutil", args2("mount", device_path)));
            }
            assert(views(history@)[0] == history@[0]@);
            if let Outcome::Finished { success: true, stdout, .. } = &history[0] {
                return report_mount_point(
                    parse_diskutil_mount_point(stdout.as_str()),
                    "diskutil",
                    device_path,
                );
            }
            Step::Finish(Err(diskutil_failure_text(&history[0])))
        },
        Platform::Linux => {
            if history.len() == 0 {
                return Step::Do(
                    run_program(
                        "udisksctl",
                        args4("mount", "-b", device_path, "--no-user-interaction"),
                    ),
                );
            }
            assert(views(history@)[0] == history@[0]@);
            if let Outcome::Finished { success: true, stdout, .. } = &history[0] {
                return report_mount_point(
                    parse_announced_mount_point(stdout.as_str()),
                    "udisksctl",
                    device_path,
                );
            }
            if history.len() == 1 {
                return Step::Do(run_program("gio", args3("mount", "-d", device_path)));
            }
            assert(views(history@)[1] == history@[1]@);
            if let Outcome::Finished { success: true, stdout, .. } = &history[1] {
                return report_mount_point(
                    parse_announced_mount_point(stdout.as_str()),
                    "gio",
                    device_path,
                );
            }
            Step::Finish(
                Err(
                    join3(
                        "Could not mount ",
                        device_path,
                        ". Install udisks2 for automatic mounting.",
                    ),
                ),
            )
        },
    }
}

/// What is reported where no tool could unmount.
pub open spec fn unmount_failure(mount_point: Seq<char>) -> Seq<char> {
    "Could not unmount. Install udisks2 or use 'umount "@ + mount_point + "'."@
}

/// The next step of unmounting on Linux, after the outcomes given.
///
/// A device under `/dev/` is first handed to the disk-management tool. Where
/// that is left out or fails and a mount point is known, the user-space
/// unmount is tried on the mount point, then the plain unmount. The first
/// success ends the operation. Where the plain unmount ran and failed, its
/// complaint is the error; in every other case of failure the error names
/// the package to install.
pub open spec fn linux_unmount_step(
    device_path: Seq<char>,
    mount_point: Seq<char>,
    history: Seq<OutcomeView>,
) -> StepView<()> {
    let managed = "/dev/"@.is_prefix_of(device_path);
    let before: int = if managed {
        1
    } else {
        0
    };
    if managed && history.len() == 0 {
        StepView::Do(
            run("udisksctl"@, seq!["unmount"@, "-b"@, device_path, "--no-user-interaction"@]),
        )
    } else if managed && history[0].succeeded() {
        StepView::Done(())
    } else if mount_point.len() == 0 {
        StepView::Failed(unmount_failure(mount_point))
    } else if history.len() == before {
        StepView::Do(run("fusermount"@, seq!["-u"@, mount_point]))
    } else if history[before].succeeded() {
        StepView::Done(())
    } else if history.len() == before + 1 {
        StepView::Do(run("umount"@, seq![mount_point]))
    } else {
        match history[before + 1] {
            OutcomeView::Finished { success, stdout, stderr } => if success {
                StepView::Done(())
            } else {
                StepView::Failed(trimmed(stderr))
            },
            _ => StepView::Failed(unmount_failure(mount_point)),
        }
    }
}

/// The next step of unmounting on Linux, after the outcomes given.
pub fn linux_unmount(device_path: &str, mount_point: &str, history: &Vec<Outcome>) -> (step: Step<
    (),
>)
    ensures
        step@ == linux_unmount_step(device_path@, mount_point@, views(history@)),
{
    let managed = starts_with(device_path, "/dev/");
    let before: usize = if managed {
        1
    } else {
        0
    };
    if managed {
        if history.len() == 0 {
            return Step::Do(
                run_program(
                    "udisksctl",
                    args4("unmount", "-b", device_path, "--no-user-interaction"),
                ),
            );
        }
        assert(views(history@)[0] == history@[0]@);
        if history[0].succeeded() {
            return Step::Finish(Ok(()));
        }
    }
    if mount_point.unicode_len() == 0 {
        return Step::Finish(
            Err(join3("Could not unmount. Install udisks2 or use 'umount ", mount_point, "'.")),
        );
    }
    if history.len() == before {
        return Step::Do(run_program("fusermount", args2("-u", mount_point)));
    }
    assert(views(history@)[before as int] == history@[before as int]@);
    if history[before].succeeded() {
        return Step::Finish(Ok(()));
    }
    if history.len() == before + 1 {
        let mut args: Vec<String> = Vec::new();
        args.push(mount_point.to_owned());
        assert(views(args@) =~= seq![mount_point@]);
        return Step::Do(run_program("umount", args));
    }
    assert(views(history@)[before + 1] == history@[before + 1]@);
    match &history[before + 1] {
        Outcome::Finished { success, stdout: _, stderr } => if *success {
            Step::Finish(Ok(()))
        } else {
            Step::Finish(Err(trim(stderr.as_str())))
        },
        _ => Step::Finish(
            Err(join3("Could not unmount. Install udisks2 or use 'umount ", mount_point, "'.")),
        ),
    }
}

/// The next step of unmounting, after the outcomes given.
///
/// Linux follows `linux_unmount_step`. macOS hands the mount point, or the
/// device where no mount point is known, to its disk utility. Windows ejects
/// its drives itself: the operation fails without an action.
pub open spec fn unmount_drive_step(
    platform: Platform,
    device_path: Seq<char>,
    mount_point: Seq<char>,
    history: Seq<OutcomeView>,
) -> StepView<()> {
    match platform {
        Platform::Linux => linux_unmount_step(device_path, mount_point, history),
        Platform::MacOs => if history.len() == 0 {
            StepView::Do(
                run(
                    "diskutil"@,
                    seq![
                        "unmount"@,
                        if mount_point.len() == 0 {
                            device_path
                        } else {
                            mount_point
                        },
                    ],
                ),
            )
        } else if history[0].succeeded() {
            StepView::Done(())
        } else {
            StepView::Failed(diskutil_failure(history[0]))
        },
        Platform::Windows => StepView::Failed(
            "Unmount not supported on Windows - use system tray eject"@,
        ),
    }
}

/// The next step of unmounting, after the outcomes given.
pub fn unmount_drive(
    platform: Platform,
    device_path: &str,
    mount_point: &str,
    history: &Vec<Outcome>,
) -> (step: Step<()>)
    ensures
        step@ == unmount_drive_step(platform, device_path@, mount_point@, views(history@)),
{
    match platform {
        Platform::Linux => linux_unmount(device_path, mount_point, history),
        Platform::MacOs => {
            if history.len() == 0 {
                let target = if mount_point.unicode_len() == 0 {
                    device_path
                } else {
                    mount_point
                };
                return Step::Do(run_program("diskutil", args2("unmount", target)));
            }
            assert(views(history@)[0] == history@[0]@);
            if history[0].succeeded() {
                Step::Finish(Ok(()))
            } else {
                Step::Finish(Err(diskutil_failure_text(&history[0])))
            }
        },
        Platform::Windows => Step::Finish(
            Err("Unmount not supported on Windows - use system tray eject".to_owned()),
        ),
    }
}

/// Mounting asks for no more than two actions, and each tool is asked at
/// most once: after two outcomes the operation is over.
pub proof fn lemma_mount_drive_ends(
    platform: Platform,
    device_path: Seq<char>,
    history: Seq<OutcomeView>,
)
    requires
        history.len() >= 2,
    ensures
        !(mount_drive_step(platform, device_path, history) is Do),
{
}

/// Unmounting asks for no more than three actions: after three outcomes the
/// operation is over.
pub proof fn lemma_unmount_drive_ends(
    platform: Platform,
    device_path: Seq<char>,
    mount_point: Seq<char>,
    history: Seq<OutcomeView>,
)
    requires
        history.len() >= 3,
    ensures
        !(unmount_drive_step(platform, device_path, mount_point, history) is Do),
{
}

/// Once mounting is over, further outcomes change nothing.
pub proof fn lemma_mount_drive_settled(
    platform: Platform,
    device_path: Seq<char>,
    history: Seq<OutcomeView>,
    more: Seq<OutcomeView>,
)
    requires
        !(mount_drive_step(platform, device_path, history) is Do),
    ensures
        mount_drive_step(platform, device_path, history + more) == mount_drive_step(
            platform,
            device_path,
            history,
        ),
{
    let longer = history + more;
    if history.len() > 0 {
        assert(longer[0] == history[0]);
    }
    if history.len() > 1 {
        assert(longer[1] == history[1]);
    }
}

/// Once unmounting is over, further outcomes change nothing.
pub proof fn lemma_unmount_drive_settled(
    platform: Platform,
    device_path: Seq<char>,
    mount_point: Seq<char>,
    history: Seq<OutcomeView>,
    more: Seq<OutcomeView>,
)
    requires
        !(unmount_drive_step(platform, device_path, mount_point, history) is Do),
    ensures
        unmount_drive_step(platform, device_path, mount_point, history + more)
            == unmount_drive_step(platform, device_path, mount_point, history),
{
    let longer = history + more;
    if history.len() > 0 {
        assert(longer[0] == history[0]);
    }
    if history.len() > 1 {
        assert(longer[1] == history[1]);
    }
    if history.len() > 2 {
        assert(longer[2] == history[2]);
    }
}

} // verus!
