//! The steps that mount a share of a remote host over SSHFS, NFS or SMB.

use crate::mount::{
    args2, args4, run, run_program, Action, ActionView, Command, CommandView, Outcome, OutcomeView,
    Step, StepView,
};
use crate::platform::{opt_view, views, Platform};
use crate::text::{
    after_first_line, contains, decimal, decimal_text, first_line, has_substring, join, join3,
    last_word, last_word_of, same_text, split_first_line, trim, trimmed,
};
use vstd::prelude::*;
use vstd::slice::slice_subrange;

verus! {

/// What to mount and where.
#[derive(Clone, Debug, PartialEq, Eq)]
pub struct NetworkShareParams {
    /// `sshfs`, `nfs` or `smb`.
    pub protocol: String,
    pub host: String,
    pub port: Option<u16>,
    pub username: Option<String>,
    pub password: Option<String>,
    pub remote_path: String,
    /// The name of the mount point under the host's directory of mounts.
    pub mount_name: String,
}

/// The mathematical form of a `NetworkShareParams`.
pub struct NetworkShareParamsView {
    pub protocol: Seq<char>,
    pub host: Seq<char>,
    pub port: Option<u16>,
    pub username: Option<Seq<char>>,
    pub password: Option<Seq<char>>,
    pub remote_path: Seq<char>,
    pub mount_name: Seq<char>,
}

impl View for NetworkShareParams {
    type V = NetworkShareParamsView;

    open spec fn view(&self) -> NetworkShareParamsView {
        NetworkShareParamsView {
            protocol: self.protocol@,
            host: self.host@,
            port: self.port,
            username: opt_view(self.username),
            password: opt_view(self.password),
            remote_path: self.remote_path@,
            mount_name: self.mount_name@,
        }
    }
}

/// Where a transport stands: its next step, and how many outcomes it has read.
pub struct Attempt {
    pub step: StepView<()>,
    pub used: nat,
}

/// The text of an error that kept a program from running to its end.
pub open spec fn run_error(outcome: OutcomeView) -> Seq<char> {
    match outcome {
        OutcomeView::NotStarted(error) => error,
        OutcomeView::Interrupted(error) => error,
        OutcomeView::Finished { stderr, .. } => stderr,
    }
}

/// The text of an error that kept a program from running to its end.
pub fn run_error_text(outcome: &Outcome) -> (r: &String)
    ensures
        r@ == run_error(outcome@),
{
    match outcome {
        Outcome::NotStarted(error) => error,
        Outcome::Interrupted(error) => error,
        Outcome::Finished { stderr, .. } => stderr,
    }
}

/// What a mount program came to, read as the result of a transport: where it
/// did not run, `not_run` and the error; where it ran and failed, `failed`
/// and its complaint, trimmed.
pub open spec fn mount_result(outcome: OutcomeView, not_run: Seq<char>, failed: Seq<char>) -> StepView<
    (),
> {
    match outcome {
        OutcomeView::Finished { success, stdout, stderr } => if success {
            StepView::Done(())
        } else {
            StepView::Failed(failed + trimmed(stderr))
        },
        _ => StepView::Failed(not_run + run_error(outcome)),
    }
}

/// What a mount program came to, read as the result of a transport.
pub fn read_mount_result(outcome: &Outcome, not_run: &str, failed: &str) -> (step: Step<()>)
    ensures
        step@ == mount_result(outcome@, not_run@, failed@),
{
    match outcome {
        Outcome::Finished { success, stdout: _, stderr } => if *success {
            Step::Finish(Ok(()))
        } else {
            Step::Finish(Err(join(failed, trim(stderr.as_str()).as_str())))
        },
        Outcome::NotStarted(error) => Step::Finish(Err(join(not_run, error.as_str()))),
        Outcome::Interrupted(error) => Step::Finish(Err(join(not_run, error.as_str()))),
    }
}

/// The port at which SSH listens unless another is given.
pub const DEFAULT_SSH_PORT: u16 = 22;

/// The user that SSHFS logs in as unless another is given.
pub open spec fn sshfs_user(params: NetworkShareParamsView) -> Seq<char> {
    match params.username {
        Some(name) => name,
        None => "root"@,
    }
}

/// The command that mounts a share over SSHFS: the source as
/// `user@host:path`, the mount point, the port, and the options that keep
/// the connection alive. A password is written to the program's input and
/// announced by one more option; it is never an argument.
pub open spec fn sshfs_command(params: NetworkShareParamsView, mount_point: Seq<char>) -> CommandView {
    let source = sshfs_user(params) + "@"@ + params.host + ":"@ + params.remote_path;
    let port = decimal(
        match params.port {
            Some(port) => port as nat,
            None => DEFAULT_SSH_PORT as nat,
        },
    );
    let args = seq![
        source,
        mount_point,
        "-p"@,
        port,
        "-o"@,
        "StrictHostKeyChecking=no"@,
        "-o"@,
        "reconnect"@,
        "-o"@,
        "ServerAliveInterval=15"@,
    ];
    CommandView {
        program: "sshfs"@,
        args: if params.password is Some {
            args + seq!["-o"@, "password_stdin"@]
        } else {
            args
        },
        input: params.password,
    }
}

/// Where mounting over SSHFS stands after the outcomes given: one command,
/// and the reading of what it came to.
pub open spec fn sshfs_attempt(
    params: NetworkShareParamsView,
    mount_point: Seq<char>,
    history: Seq<OutcomeView>,
) -> Attempt {
    if history.len() == 0 {
        Attempt { step: StepView::Do(ActionView::Run(sshfs_command(params, mount_point))), used: 0 }
    } else {
        Attempt {
            step: match history[0] {
                OutcomeView::Interrupted(error) if params.password is Some => StepView::Failed(
                    "sshfs process error: "@ + error,
                ),
                OutcomeView::Finished { success, stdout, stderr } => if success {
                    StepView::Done(())
                } else {
                    StepView::Failed("sshfs failed: "@ + trimmed(stderr))
                },
                other => StepView::Failed(
                    "Failed to run sshfs: "@ + run_error(other) + ". Is sshfs installed?"@,
                ),
            },
            used: 1,
        }
    }
}

/// The command that mounts a share over SSHFS.
fn build_sshfs_command(params: &NetworkShareParams, mount_point: &str) -> (command: Command)
    ensures
        command@ == sshfs_command(params@, mount_point@),
{
    let mut source = match &params.username {
        Some(name) => name.clone(),
        None => "root".to_owned(),
    };
    source.append("@");
    source.append(params.host.as_str());
    source.append(":");
    source.append(params.remote_path.as_str());
    let port = decimal_text(
        match params.port {
            Some(port) => port,
            None => DEFAULT_SSH_PORT,
        },
    );
    let mut args: Vec<String> = Vec::new();
    args.push(source);
    args.push(mount_point.to_owned());
    args.push("-p".to_owned());
    args.push(port);
    args.push("-o".to_owned());
    args.push("StrictHostKeyChecking=no".to_owned());
    args.push("-o".to_owned());
    args.push("reconnect".to_owned());
    args.push("-o".to_owned());
    args.push("ServerAliveInterval=15".to_owned());
    let input = match &params.password {
        Some(password) => {
            args.push("-o".to_owned());
            args.push("password_stdin".to_owned());
            Some(password.clone())
        },
        None => None,
    };
    let command = Command { program: "sshfs".to_owned(), args, input };
    assert(command@.args =~= sshfs_command(params@, mount_point@).args);
    command
}

/// Where mounting over SSHFS stands after the outcomes given.
pub fn mount_sshfs(
    params: &NetworkShareParams,
    mount_point: &str,
    history: &[Outcome],
) -> (r: (Step<()>, usize))
    ensures
        r.0@ == sshfs_attempt(params@, mount_point@, views(history@)).step,
        r.1 == sshfs_attempt(params@, mount_point@, views(history@)).used,
{
    if history.len() == 0 {
        return (Step::Do(Action::Run(build_sshfs_command(params, mount_point))), 0);
    }
    assert(views(history@)[0] == history@[0]@);
    let step = match &history[0] {
        Outcome::Finished { success, stdout: _, stderr } => if *success {
            Step::Finish(Ok(()))
        } else {
            Step::Finish(Err(join("sshfs failed: ", trim(stderr.as_str()).as_str())))
        },
        Outcome::Interrupted(error) => if params.password.is_some() {
            Step::Finish(Err(join("sshfs process error: ", error.as_str())))
        } else {
            Step::Finish(Err(join3("Failed to run sshfs: ", error.as_str(), ". Is sshfs installed?")))
        },
        Outcome::NotStarted(error) => Step::Finish(
            Err(join3("Failed to run sshfs: ", error.as_str(), ". Is sshfs installed?")),
        ),
    };
    (step, 1)
}

/// The command that mounts an NFS share with the file-system type given.
pub open spec fn nfs_command(
    params: NetworkShareParamsView,
    mount_point: Seq<char>,
    version: Seq<char>,
) -> ActionView {
    run("mount"@, seq!["-t"@, version, params.host + ":"@ + params.remote_path, mount_point])
}

/// Where mounting over NFS stands after the outcomes given: version 4 is
/// tried first; version 3 follows where that does not succeed, and what the
/// second command comes to is the result.
pub open spec fn nfs_attempt(
    params: NetworkShareParamsView,
    mount_point: Seq<char>,
    history: Seq<OutcomeView>,
) -> Attempt {
    if history.len() == 0 {
        Attempt { step: StepView::Do(nfs_command(params, mount_point, "nfs4"@)), used: 0 }
    } else if history[0].succeeded() {
        Attempt { step: StepView::Done(()), used: 1 }
    } else if history.len() == 1 {
        Attempt { step: StepView::Do(nfs_command(params, mount_point, "nfs"@)), used: 1 }
    } else {
        Attempt {
            step: mount_result(history[1], "Failed to run mount: "@, "NFS mount failed: "@),
            used: 2,
        }
    }
}

/// Where mounting over NFS stands after the outcomes given.
pub fn mount_nfs(
    params: &NetworkShareParams,
    mount_point: &str,
    history: &[Outcome],
) -> (r: (Step<()>, usize))
    ensures
        r.0@ == nfs_attempt(params@, mount_point@, views(history@)).step,
        r.1 == nfs_attempt(params@, mount_point@, views(history@)).used,
{
    let source = join3(params.host.as_str(), ":", params.remote_path.as_str());
    if history.len() == 0 {
        return (Step::Do(run_program("mount", args4("-t", "nfs4", source.as_str(), mount_point))), 0);
    }
    let ghost rest = views(history@);
    assert(rest[0] == history@[0]@);
    if history[0].succeeded() {
        return (Step::Finish(Ok(())), 1);
    }
    if history.len() == 1 {
        return (Step::Do(run_program("mount", args4("-t", "nfs", source.as_str(), mount_point))), 1);
    }
    assert(rest[1] == history@[1]@);
    (read_mount_result(&history[1], "Failed to run mount: ", "NFS mount failed: "), 2)
}

/// The share as `//host/path`, with `user@` before the host where a user is
/// named and `with_user` asks for it.
pub open spec fn smb_source(params: NetworkShareParamsView, with_user: bool) -> Seq<char> {
    match params.username {
        Some(name) if with_user => "//"@ + name + "@"@ + params.host + "/"@ + params.remote_path,
        _ => "//"@ + params.host + "/"@ + params.remote_path,
    }
}

/// The share as `//host/path`.
fn smb_source_text(params: &NetworkShareParams, with_user: bool) -> (r: String)
    ensures
        r@ == smb_source(params@, with_user),
{
    let mut source = "//".to_owned();
    match &params.username {
        Some(name) => {
            if with_user {
                source.append(name.as_str());
                source.append("@");
            }
        },
        None => {},
    }
    source.append(params.host.as_str());
    source.append("/");
    source.append(params.remote_path.as_str());
    source
}

/// The mount options that carry the credentials to a CIFS mount: the user
/// and, where there is one, the password; `guest` where no user is named.
pub open spec fn cifs_options(params: NetworkShareParamsView) -> Seq<char> {
    match params.username {
        Some(name) => match params.password {
            Some(password) => "username="@ + name + ",password="@ + password,
            None => "username="@ + name,
        },
        None => "guest"@,
    }
}

/// The mount options that carry the credentials to a CIFS mount.
fn cifs_options_text(params: &NetworkShareParams) -> (r: String)
    ensures
        r@ == cifs_options(params@),
{
    match &params.username {
        Some(name) => {
            let mut options = join("username=", name.as_str());
            match &params.password {
                Some(password) => {
                    options.append(",password=");
                    options.append(password.as_str());
                },
                None => {},
            }
            options
        },
        None => "guest".to_owned(),
    }
}

/// Where mounting over SMB stands after the outcomes given.
///
/// macOS mounts with its own SMB file system, the user named in the source.
/// The other hosts ask the desktop's mount helper first, with the share as
/// an `smb:` address; where that does not succeed, they mount with CIFS and
/// hand the credentials over as mount options.
pub open spec fn smb_attempt(
    platform: Platform,
    params: NetworkShareParamsView,
    mount_point: Seq<char>,
    history: Seq<OutcomeView>,
) -> Attempt {
    if platform == Platform::MacOs {
        if history.len() == 0 {
            Attempt {
                step: StepView::Do(
                    run("mount"@, seq!["-t"@, "smbfs"@, smb_source(params, true), mount_point]),
                ),
                used: 0,
            }
        } else {
            Attempt {
                step: mount_result(history[0], "Failed to run mount: "@, "SMB mount failed: "@),
                used: 1,
            }
        }
    } else if history.len() == 0 {
        Attempt {
            step: StepView::Do(run("gio"@, seq!["mount"@, "smb:"@ + smb_source(params, true)])),
            used: 0,
        }
    } else if history[0].succeeded() {
        Attempt { step: StepView::Done(()), used: 1 }
    } else if history.len() == 1 {
        Attempt {
            step: StepView::Do(
                run(
                    "mount"@,
                    seq![
                        "-t"@,
                        "cifs"@,
                        smb_source(params, false),
                        mount_point,
                        "-o"@,
                        cifs_options(params),
                    ],
                ),
            ),
            used: 1,
        }
    } else {
        Attempt {
            step: mount_result(history[1], "Failed to run mount: "@, "SMB mount failed: "@),
            used: 2,
        }
    }
}

/// Where mounting over SMB stands after the outcomes given.
pub fn mount_smb(
    platform: Platform,
    params: &NetworkShareParams,
    mount_point: &str,
    history: &[Outcome],
) -> (r: (Step<()>, usize))
    ensures
        r.0@ == smb_attempt(platform, params@, mount_point@, views(history@)).step,
        r.1 == smb_attempt(platform, params@, mount_point@, views(history@)).used,
{
    let ghost rest = views(history@);
    if let Platform::MacOs = platform {
        if history.len() == 0 {
            let source = smb_source_text(params, true);
            return (
                Step::Do(run_program("mount", args4("-t", "smbfs", source.as_str(), mount_point))),
                0,
            );
        }
        assert(rest[0] == history@[0]@);
        return (read_mount_result(&history[0], "Failed to run mount: ", "SMB mount failed: "), 1);
    }
    if history.len() == 0 {
        let address = join("smb:", smb_source_text(params, true).as_str());
        return (Step::Do(run_program("gio", args2("mount", address.as_str()))), 0);
    }
    assert(rest[0] == history@[0]@);
    if history[0].succeeded() {
        return (Step::Finish(Ok(())), 1);
    }
    if history.len() == 1 {
        let mut args: Vec<String> = Vec::new();
        args.push("-t".to_owned());
        args.push("cifs".to_owned());
        args.push(smb_source_text(params, false));
        args.push(mount_point.to_owned());
        args.push("-o".to_owned());
        args.push(cifs_options_text(params));
        assert(views(args@) =~= seq![
            "-t"@,
            "cifs"@,
            smb_source(params@, false),
            mount_point@,
            "-o"@,
            cifs_options(params@),
        ]);
        return (Step::Do(run_program("mount", args)), 1);
    }
    assert(rest[1] == history@[1]@);
    (read_mount_result(&history[1], "Failed to run mount: ", "SMB mount failed: "), 2)
}

/// The first line of a text that holds `assigned`.
pub open spec fn assigned_line(text: Seq<char>) -> Option<Seq<char>>
    decreases text.len(),
{
    if text.len() == 0 {
        None
    } else if has_substring(first_line(text), "assigned"@) {
        Some(first_line(text))
    } else {
        assigned_line(after_first_line(text))
    }
}

/// The drive that the network-drive tool of Windows assigned: the last word
/// of the first line of its output that holds `assigned`; empty where no
/// line does.
pub open spec fn assigned_drive(stdout: Seq<char>) -> Seq<char> {
    match assigned_line(stdout) {
        Some(line) => last_word(line),
        None => Seq::empty(),
    }
}

/// The drive that the network-drive tool of Windows assigned.
pub fn parse_assigned_drive(stdout: &str) -> (r: String)
    ensures
        r@ == assigned_drive(stdout@),
{
    let mut rest: &str = stdout;
    while rest.unicode_len() > 0
        invariant
            assigned_line(rest@) == assigned_line(stdout@),
        decreases rest@.len(),
    {
        let (line, tail) = split_first_line(rest);
        if contains(line, "assigned") {
            return match last_word_of(line) {
                Some(word) => word,
                None => String::new(),
            };
        }
        rest = tail;
    }
    String::new()
}

/// The command that maps a share to the next free drive letter: the share
/// as `\\host\path`, and the user and the password where a password is given.
pub open spec fn net_use_command(params: NetworkShareParamsView) -> ActionView {
    let share = "\\\\"@ + params.host + "\\"@ + params.remote_path;
    run(
        "net"@,
        match params.password {
            Some(password) => seq![
                "use"@,
                "*"@,
                share,
                "/user:"@ + match params.username {
                    Some(name) => name,
                    None => Seq::empty(),
                },
                password,
            ],
            None => seq!["use"@, "*"@, share],
        },
    )
}

/// The command that maps a share to the next free drive letter.
fn build_net_use_command(params: &NetworkShareParams) -> (action: Action)
    ensures
        action@ == net_use_command(params@),
{
    let mut share = "\\\\".to_owned();
    share.append(params.host.as_str());
    share.append("\\");
    share.append(params.remote_path.as_str());
    let ghost share_text = share@;
    let mut args: Vec<String> = Vec::new();
    args.push("use".to_owned());
    args.push("*".to_owned());
    args.push(share);
    match &params.password {
        Some(password) => {
            let mut user = "/user:".to_owned();
            match &params.username {
                Some(name) => {
                    user.append(name.as_str());
                },
                None => {
                    assert(user@ =~= "/user:"@ + Seq::<char>::empty());
                },
            }
            args.push(user);
            args.push(password.clone());
            assert(views(args@) =~= seq!["use"@, "*"@, share_text, user@, password@]);
        },
        None => {
            assert(views(args@) =~= seq!["use"@, "*"@, share_text]);
        },
    }
    let action = run_program("net", args);
    proof {
        let want = net_use_command(params@);
        assert(share_text == "\\\\"@ + params@.host + "\\"@ + params@.remote_path);
        assert(want is Run);
        assert(action@->Run_0.args =~= want->Run_0.args);
    }
    action
}

/// The next step of mounting a share on Windows, after the outcomes given.
///
/// SMB maps the share to a drive letter and reports the drive that the tool
/// assigned, or an error where it names none. SSHFS and NFS need software that Windows does not bring: they
/// fail without an action, and the error names what to install. Any other
/// protocol is unknown.
pub open spec fn windows_share_step(params: NetworkShareParamsView, history: Seq<OutcomeView>) -> StepView<
    Seq<char>,
> {
    if params.protocol == "smb"@ {
        if history.len() == 0 {
            StepView::Do(net_use_command(params))
        } else {
            match history[0] {
                OutcomeView::Finished { success, stdout, stderr } => if success {
                    if assigned_drive(stdout).len() > 0 {
                        StepView::Done(assigned_drive(stdout))
                    } else {
                        StepView::Failed("net use mapped the share but assigned no drive."@)
                    }
                } else {
                    StepView::Failed("net use failed: "@ + trimmed(stderr))
                },
                other => StepView::Failed("Failed to run 'net use': "@ + run_error(other)),
            }
        }
    } else if params.protocol == "sshfs"@ {
        StepView::Failed(
            "SSHFS on Windows requires WinFSP and sshfs-win. Install from https://github.com/winfsp/sshfs-win"@,
        )
    } else if params.protocol == "nfs"@ {
        StepView::Failed(
            "NFS on Windows requires 'Services for NFS' Windows feature to be enabled"@,
        )
    } else {
        StepView::Failed("Unknown protocol: "@ + params.protocol)
    }
}

/// The next step of mounting a share on Windows, after the outcomes given.
pub fn mount_network_share_windows(params: &NetworkShareParams, history: &Vec<Outcome>) -> (step:
    Step<String>)
    ensures
        step@ == windows_share_step(params@, views(history@)),
        step@ is Done ==> step@->Done_0.len() > 0,
{
    let protocol = params.protocol.as_str();
    if same_text(protocol, "smb") {
        if history.len() == 0 {
            return Step::Do(build_net_use_command(params));
        }
        assert(views(history@)[0] == history@[0]@);
        match &history[0] {
            Outcome::Finished { success, stdout, stderr } => if *success {
                let drive = parse_assigned_drive(stdout.as_str());
                if drive.as_str().unicode_len() > 0 {
                    Step::Finish(Ok(drive))
                } else {
                    Step::Finish(Err("net use mapped the share but assigned no drive.".to_owned()))
                }
            } else {
                Step::Finish(Err(join("net use failed: ", trim(stderr.as_str()).as_str())))
            },
            other => Step::Finish(
                Err(join("Failed to run 'net use': ", run_error_text(other).as_str())),
            ),
        }
    } else if same_text(protocol, "sshfs") {
        Step::Finish(
            Err(
                "SSHFS on Windows requires WinFSP and sshfs-win. Install from https://github.com/winfsp/sshfs-win".to_owned(),
            ),
        )
    } else if same_text(protocol, "nfs") {
        Step::Finish(
            Err(
                "NFS on Windows requires 'Services for NFS' Windows feature to be enabled".to_owned(),
            ),
        )
    } else {
        Step::Finish(Err(join("Unknown protocol: ", protocol)))
    }
}

/// The directory under which a host mounts shares.
pub open spec fn mount_base(platform: Platform) -> Seq<char> {
    if platform == Platform::MacOs {
        "/Volumes"@
    } else {
        "/mnt"@
    }
}

/// The mount point of a share: its name under the host's directory of mounts.
pub open spec fn share_mount_point(platform: Platform, params: NetworkShareParamsView) -> Seq<char> {
    mount_base(platform) + "/"@ + params.mount_name
}

/// The mount point of a share.
pub fn share_mount_point_path(platform: Platform, params: &NetworkShareParams) -> (r: String)
    ensures
        r@ == share_mount_point(platform, params@),
{
    let base = match platform {
        Platform::MacOs => "/Volumes",
        _ => "/mnt",
    };
    join3(base, "/", params.mount_name.as_str())
}

/// Where the transport that the protocol names stands after the outcomes
/// given. An unknown protocol fails at once.
pub open spec fn transport_attempt(
    platform: Platform,
    params: NetworkShareParamsView,
    mount_point: Seq<char>,
    history: Seq<OutcomeView>,
) -> Attempt {
    if params.protocol == "sshfs"@ {
        sshfs_attempt(params, mount_point, history)
    } else if params.protocol == "nfs"@ {
        nfs_attempt(params, mount_point, history)
    } else if params.protocol == "smb"@ {
        smb_attempt(platform, params, mount_point, history)
    } else {
        Attempt { step: StepView::Failed("Unknown protocol: "@ + params.protocol), used: 0 }
    }
}

/// The next step of mounting a share, after the outcomes given.
///
/// Windows follows `windows_share_step`. The other hosts create the mount
/// point first and fail where that fails. Then the transport takes its
/// steps. Its success is the mount point. After its failure the mount point
/// is removed again, whatever comes of that, and then its error is the
/// result.
pub open spec fn share_step(
    platform: Platform,
    params: NetworkShareParamsView,
    history: Seq<OutcomeView>,
) -> StepView<Seq<char>> {
    let mount_point = share_mount_point(platform, params);
    if platform == Platform::Windows {
        windows_share_step(params, history)
    } else if history.len() == 0 {
        StepView::Do(ActionView::CreateDir(mount_point))
    } else if !history[0].succeeded() {
        StepView::Failed("Failed to create mount point: "@ + run_error(history[0]))
    } else {
        let rest = history.skip(1);
        let attempt = transport_attempt(platform, params, mount_point, rest);
        match attempt.step {
            StepView::Do(action) => StepView::Do(action),
            StepView::Done(_) => StepView::Done(mount_point),
            StepView::Failed(error) => if rest.len() <= attempt.used {
                StepView::Do(ActionView::RemoveDir(mount_point))
            } else {
                StepView::Failed(error)
            },
        }
    }
}

/// The next step of mounting a share, after the outcomes given. A success
/// carries a mount point that is not empty.
pub fn mount_network_share(
    platform: Platform,
    params: &NetworkShareParams,
    history: &Vec<Outcome>,
) -> (step: Step<String>)
    ensures
        step@ == share_step(platform, params@, views(history@)),
        step@ is Done ==> step@->Done_0.len() > 0,
{
    proof {
        reveal_strlit("/");
    }
    if let Platform::Windows = platform {
        return mount_network_share_windows(params, history);
    }
    let mount_point = share_mount_point_path(platform, params);
    if history.len() == 0 {
        return Step::Do(Action::CreateDir(mount_point));
    }
    assert(views(history@)[0] == history@[0]@);
    if !history[0].succeeded() {
        return Step::Finish(
            Err(join("Failed to create mount point: ", run_error_text(&history[0]).as_str())),
        );
    }
    let protocol = params.protocol.as_str();
    let rest = slice_subrange(history.as_slice(), 1, history.len());
    assert(views(rest@) =~= views(history@).skip(1));
    let (step, used) = if same_text(protocol, "sshfs") {
        mount_sshfs(params, mount_point.as_str(), rest)
    } else if same_text(protocol, "nfs") {
        mount_nfs(params, mount_point.as_str(), rest)
    } else if same_text(protocol, "smb") {
        mount_smb(platform, params, mount_point.as_str(), rest)
    } else {
        (Step::Finish(Err(join("Unknown protocol: ", protocol))), 0)
    };
    match step {
        Step::Do(action) => Step::Do(action),
        Step::Finish(Ok(_)) => Step::Finish(Ok(mount_point)),
        Step::Finish(Err(error)) => if rest.len() <= used {
            Step::Do(Action::RemoveDir(mount_point))
        } else {
            Step::Finish(Err(error))
        },
    }
}

/// Mounting a share asks for no more than four actions: after four outcomes
/// the operation is over.
pub proof fn lemma_share_mounting_ends(
    platform: Platform,
    params: NetworkShareParamsView,
    history: Seq<OutcomeView>,
)
    requires
        history.len() >= 4,
    ensures
        !(share_step(platform, params, history) is Do),
{
}

/// On a host other than Windows a share is never reported as failed while
/// its mount point stands: where the transport fails, the step before the
/// error is the removal of the mount point that was created.
pub proof fn lemma_failure_removes_mount_point(
    platform: Platform,
    params: NetworkShareParamsView,
    history: Seq<OutcomeView>,
)
    requires
        platform != Platform::Windows,
        history.len() >= 2,
        history[0].succeeded(),
        share_step(platform, params, history) is Failed,
        !(share_step(platform, params, history.drop_last()) is Failed),
    ensures
        share_step(platform, params, history.drop_last()) == StepView::Do::<Seq<char>>(
            ActionView::RemoveDir(share_mount_point(platform, params)),
        ),
{
    let shorter = history.drop_last();
    let mount_point = share_mount_point(platform, params);
    let rest = history.skip(1);
    let short_rest = shorter.skip(1);
    assert(shorter[0] == history[0]);
    assert(short_rest =~= rest.drop_last());
    if short_rest.len() > 0 {
        assert(short_rest[0] == rest[0]);
    }
    if short_rest.len() > 1 {
        assert(short_rest[1] == rest[1]);
    }
}

} // verus!
