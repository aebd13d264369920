use dir_reader::mount::{Action, Command, Outcome, Step};
use dir_reader::network::{
    mount_network_share, mount_network_share_windows, mount_nfs, mount_smb, mount_sshfs,
    parse_assigned_drive, share_mount_point_path, NetworkShareParams,
};
use dir_reader::platform::Platform;

fn ok(stdout: &str) -> Outcome {
    Outcome::Finished { success: true, stdout: stdout.to_string(), stderr: String::new() }
}

fn failed(stderr: &str) -> Outcome {
    Outcome::Finished { success: false, stdout: String::new(), stderr: stderr.to_string() }
}

fn not_started() -> Outcome {
    Outcome::NotStarted("No such file or directory (os error 2)".to_string())
}

fn params(protocol: &str) -> NetworkShareParams {
    NetworkShareParams {
        protocol: protocol.to_string(),
        host: "server1".to_string(),
        port: None,
        username: None,
        password: None,
        remote_path: "/export/data".to_string(),
        mount_name: "data".to_string(),
    }
}

fn run(program: &str, args: &[&str]) -> Action {
    Action::Run(Command {
        program: program.to_string(),
        args: args.iter().map(|arg| arg.to_string()).collect(),
        input: None,
    })
}

fn fail(message: &str) -> Step<String> {
    Step::Finish(Err(message.to_string()))
}

#[test]
fn nfs_share_is_mounted_under_the_base_with_version_4_first() {
    let request = params("nfs");
    assert_eq!(share_mount_point_path(Platform::Linux, &request), "/mnt/data");
    assert_eq!(share_mount_point_path(Platform::MacOs, &request), "/Volumes/data");
    assert_eq!(
        mount_network_share(Platform::Linux, &request, &vec![]),
        Step::Do(Action::CreateDir("/mnt/data".to_string()))
    );
    assert_eq!(
        mount_network_share(Platform::Linux, &request, &vec![ok("")]),
        Step::Do(run("mount", &["-t", "nfs4", "server1:/export/data", "/mnt/data"]))
    );
    assert_eq!(
        mount_network_share(Platform::Linux, &request, &vec![ok(""), ok("")]),
        Step::Finish(Ok("/mnt/data".to_string()))
    );
    assert_eq!(
        mount_network_share(Platform::MacOs, &request, &vec![ok(""), ok("")]),
        Step::Finish(Ok("/Volumes/data".to_string()))
    );
}

#[test]
fn nfs_version_3_follows_where_version_4_does_not_succeed() {
    let request = params("nfs");
    for first in [not_started(), failed("mount.nfs4: Protocol not supported")] {
        assert_eq!(
            mount_network_share(Platform::Linux, &request, &vec![ok(""), first.clone()]),
            Step::Do(run("mount", &["-t", "nfs", "server1:/export/data", "/mnt/data"]))
        );
        assert_eq!(
            mount_network_share(Platform::Linux, &request, &vec![ok(""), first, ok("")]),
            Step::Finish(Ok("/mnt/data".to_string()))
        );
    }
}

#[test]
fn failed_mount_removes_the_mount_point_before_it_reports() {
    let request = params("nfs");
    let mut history = vec![
        ok(""),
        failed("mount.nfs4: Protocol not supported"),
        failed(" mount.nfs: access denied\n"),
    ];
    assert_eq!(
        mount_network_share(Platform::Linux, &request, &history),
        Step::Do(Action::RemoveDir("/mnt/data".to_string()))
    );
    history.push(not_started());
    assert_eq!(
        mount_network_share(Platform::Linux, &request, &history),
        fail("NFS mount failed: mount.nfs: access denied")
    );
    let mut request = params("smb");
    request.remote_path = "share".to_string();
    let mut history = vec![ok(""), failed("x"), failed("mount error(13): Permission denied\n")];
    assert_eq!(
        mount_network_share(Platform::Linux, &request, &history),
        Step::Do(Action::RemoveDir("/mnt/data".to_string()))
    );
    history.push(ok(""));
    assert_eq!(
        mount_network_share(Platform::Linux, &request, &history),
        fail("SMB mount failed: mount error(13): Permission denied")
    );
}

#[test]
fn mount_without_any_tool_removes_the_mount_point_and_names_the_tool() {
    let request = params("nfs");
    let mut history = vec![ok(""), not_started(), not_started()];
    assert_eq!(
        mount_network_share(Platform::Linux, &request, &history),
        Step::Do(Action::RemoveDir("/mnt/data".to_string()))
    );
    history.push(ok(""));
    assert_eq!(
        mount_network_share(Platform::Linux, &request, &history),
        fail("Failed to run mount: No such file or directory (os error 2)")
    );
    let mut request = params("sshfs");
    request.mount_name = "box".to_string();
    let mut history = vec![ok(""), not_started()];
    assert_eq!(
        mount_network_share(Platform::Linux, &request, &history),
        Step::Do(Action::RemoveDir("/mnt/box".to_string()))
    );
    history.push(ok(""));
    assert_eq!(
        mount_network_share(Platform::Linux, &request, &history),
        fail("Failed to run sshfs: No such file or directory (os error 2). Is sshfs installed?")
    );
}

#[test]
fn mount_point_that_cannot_be_created() {
    assert_eq!(
        mount_network_share(
            Platform::Linux,
            &params("nfs"),
            &vec![Outcome::NotStarted("Permission denied (os error 13)".to_string())]
        ),
        fail("Failed to create mount point: Permission denied (os error 13)")
    );
}

#[test]
fn unknown_protocol_removes_the_mount_point_that_was_created() {
    let request = params("ftp");
    assert_eq!(
        mount_network_share(Platform::Linux, &request, &vec![]),
        Step::Do(Action::CreateDir("/mnt/data".to_string()))
    );
    assert_eq!(
        mount_network_share(Platform::Linux, &request, &vec![ok("")]),
        Step::Do(Action::RemoveDir("/mnt/data".to_string()))
    );
    assert_eq!(
        mount_network_share(Platform::Linux, &request, &vec![ok(""), ok("")]),
        fail("Unknown protocol: ftp")
    );
    assert_eq!(
        mount_network_share(Platform::Windows, &request, &vec![]),
        fail("Unknown protocol: ftp")
    );
}

#[test]
fn mounting_a_share_is_over_after_four_outcomes() {
    for protocol in ["sshfs", "nfs", "smb", "other"] {
        for platform in [Platform::Linux, Platform::MacOs, Platform::Windows] {
            let history = vec![ok(""), not_started(), not_started(), not_started()];
            assert!(matches!(
                mount_network_share(platform, &params(protocol), &history),
                Step::Finish(_)
            ));
        }
    }
}

#[test]
fn sshfs_without_credentials() {
    let (step, used) = mount_sshfs(&params("sshfs"), "/mnt/data", &vec![]);
    assert_eq!(used, 0);
    assert_eq!(
        step,
        Step::Do(run(
            "sshfs",
            &[
                "root@server1:/export/data",
                "/mnt/data",
                "-p",
                "22",
                "-o",
                "StrictHostKeyChecking=no",
                "-o",
                "reconnect",
                "-o",
                "ServerAliveInterval=15",
            ]
        ))
    );
}

#[test]
fn sshfs_writes_the_password_to_the_input() {
    let mut request = params("sshfs");
    request.username = Some("alice".to_string());
    request.password = Some("s3cret".to_string());
    request.port = Some(2222);
    let (step, _) = mount_sshfs(&request, "/mnt/data", &vec![]);
    let command = match step {
        Step::Do(Action::Run(command)) => command,
        other => panic!("{:?}", other),
    };
    assert_eq!(command.program, "sshfs");
    assert_eq!(
        command.args,
        vec![
            "alice@server1:/export/data",
            "/mnt/data",
            "-p",
            "2222",
            "-o",
            "StrictHostKeyChecking=no",
            "-o",
            "reconnect",
            "-o",
            "ServerAliveInterval=15",
            "-o",
            "password_stdin",
        ]
    );
    assert_eq!(command.input.as_deref(), Some("s3cret"));
    assert!(command.args.iter().all(|arg| !arg.contains("s3cret")));
}

#[test]
fn sshfs_ports() {
    for (port, text) in [(0u16, "0"), (7, "7"), (22, "22"), (443, "443"), (8022, "8022"), (65535, "65535"), (10000, "10000")] {
        let mut request = params("sshfs");
        request.port = Some(port);
        match mount_sshfs(&request, "/mnt/data", &vec![]).0 {
            Step::Do(Action::Run(command)) => assert_eq!(command.args[3], text),
            other => panic!("{:?}", other),
        }
    }
}

#[test]
fn sshfs_results() {
    let request = params("sshfs");
    assert_eq!(mount_sshfs(&request, "/mnt/data", &vec![ok("")]), (Step::Finish(Ok(())), 1));
    assert_eq!(
        mount_sshfs(&request, "/mnt/data", &vec![failed("\nread: Connection reset by peer\n")]),
        (Step::Finish(Err("sshfs failed: read: Connection reset by peer".to_string())), 1)
    );
    assert_eq!(
        mount_sshfs(&request, "/mnt/data", &vec![Outcome::Interrupted("gone".to_string())]),
        (Step::Finish(Err("Failed to run sshfs: gone. Is sshfs installed?".to_string())), 1)
    );
    let mut with_password = params("sshfs");
    with_password.password = Some("pw".to_string());
    assert_eq!(
        mount_sshfs(&with_password, "/mnt/data", &vec![Outcome::Interrupted("gone".to_string())]),
        (Step::Finish(Err("sshfs process error: gone".to_string())), 1)
    );
}

#[test]
fn nfs_results() {
    let request = params("nfs");
    assert_eq!(mount_nfs(&request, "/mnt/data", &vec![ok("")]), (Step::Finish(Ok(())), 1));
    assert_eq!(
        mount_nfs(&request, "/mnt/data", &vec![failed("denied")]),
        (Step::Do(run("mount", &["-t", "nfs", "server1:/export/data", "/mnt/data"])), 1)
    );
    assert_eq!(
        mount_nfs(&request, "/mnt/data", &vec![failed("first"), failed("denied\n")]),
        (Step::Finish(Err("NFS mount failed: denied".to_string())), 2)
    );
    assert_eq!(
        mount_nfs(&request, "/mnt/data", &vec![not_started(), not_started()]),
        (
            Step::Finish(Err(
                "Failed to run mount: No such file or directory (os error 2)".to_string()
            )),
            2
        )
    );
}

#[test]
fn smb_on_linux_asks_the_mount_helper_then_cifs() {
    let mut request = params("smb");
    request.remote_path = "share".to_string();
    assert_eq!(
        mount_smb(Platform::Linux, &request, "/mnt/data", &vec![]),
        (Step::Do(run("gio", &["mount", "smb://server1/share"])), 0)
    );
    assert_eq!(
        mount_smb(Platform::Linux, &request, "/mnt/data", &vec![ok("")]),
        (Step::Finish(Ok(())), 1)
    );
    for first in [failed("x"), not_started()] {
        assert_eq!(
            mount_smb(Platform::Linux, &request, "/mnt/data", &vec![first]),
            (
                Step::Do(run(
                    "mount",
                    &["-t", "cifs", "//server1/share", "/mnt/data", "-o", "guest"]
                )),
                1
            )
        );
    }
    assert_eq!(
        mount_smb(Platform::Linux, &request, "/mnt/data", &vec![failed("x"), ok("")]),
        (Step::Finish(Ok(())), 2)
    );
    assert_eq!(
        mount_smb(Platform::Linux, &request, "/mnt/data", &vec![failed("x"), failed(" bad\n")]),
        (Step::Finish(Err("SMB mount failed: bad".to_string())), 2)
    );
    assert_eq!(
        mount_smb(Platform::Linux, &request, "/mnt/data", &vec![failed("x"), not_started()]),
        (
            Step::Finish(Err(
                "Failed to run mount: No such file or directory (os error 2)".to_string()
            )),
            2
        )
    );
}

#[test]
fn smb_credentials_on_linux() {
    let mut request = params("smb");
    request.remote_path = "share".to_string();
    request.username = Some("bob".to_string());
    assert_eq!(
        mount_smb(Platform::Linux, &request, "/mnt/data", &vec![]).0,
        Step::Do(run("gio", &["mount", "smb://bob@server1/share"]))
    );
    assert_eq!(
        mount_smb(Platform::Linux, &request, "/mnt/data", &vec![failed("")]).0,
        Step::Do(run(
            "mount",
            &["-t", "cifs", "//server1/share", "/mnt/data", "-o", "username=bob"]
        ))
    );
    request.password = Some("pw".to_string());
    assert_eq!(
        mount_smb(Platform::Linux, &request, "/mnt/data", &vec![failed("")]).0,
        Step::Do(run(
            "mount",
            &["-t", "cifs", "//server1/share", "/mnt/data", "-o", "username=bob,password=pw"]
        ))
    );
    request.username = None;
    assert_eq!(
        mount_smb(Platform::Linux, &request, "/mnt/data", &vec![failed("")]).0,
        Step::Do(run("mount", &["-t", "cifs", "//server1/share", "/mnt/data", "-o", "guest"]))
    );
}

#[test]
fn smb_on_macos_uses_its_own_file_system() {
    let mut request = params("smb");
    request.remote_path = "share".to_string();
    assert_eq!(
        mount_smb(Platform::MacOs, &request, "/Volumes/data", &vec![]),
        (Step::Do(run("mount", &["-t", "smbfs", "//server1/share", "/Volumes/data"])), 0)
    );
    request.username = Some("bob".to_string());
    assert_eq!(
        mount_smb(Platform::MacOs, &request, "/Volumes/data", &vec![]).0,
        Step::Do(run("mount", &["-t", "smbfs", "//bob@server1/share", "/Volumes/data"]))
    );
    assert_eq!(
        mount_smb(Platform::MacOs, &request, "/Volumes/data", &vec![failed("no")]),
        (Step::Finish(Err("SMB mount failed: no".to_string())), 1)
    );
    assert_eq!(
        mount_smb(Platform::MacOs, &request, "/Volumes/data", &vec![ok("")]),
        (Step::Finish(Ok(())), 1)
    );
}

#[test]
fn smb_on_windows_maps_a_drive_letter() {
    let mut request = params("smb");
    request.remote_path = "share".to_string();
    assert_eq!(
        mount_network_share(Platform::Windows, &request, &vec![]),
        Step::Do(run("net", &["use", "*", "\\\\server1\\share"]))
    );
    request.password = Some("pw".to_string());
    assert_eq!(
        mount_network_share_windows(&request, &vec![]),
        Step::Do(run("net", &["use", "*", "\\\\server1\\share", "/user:", "pw"]))
    );
    request.username = Some("bob".to_string());
    assert_eq!(
        mount_network_share_windows(&request, &vec![]),
        Step::Do(run("net", &["use", "*", "\\\\server1\\share", "/user:bob", "pw"]))
    );
    assert_eq!(
        mount_network_share_windows(
            &request,
            &vec![ok("Drive Z: is now connected to \\\\server1\\share.\r\n\r\nThe command completed successfully.\r\n")]
        ),
        fail("net use mapped the share but assigned no drive.")
    );
    assert_eq!(
        mount_network_share_windows(
            &request,
            &vec![ok("The drive was assigned the letter Y:\r\nThe command completed successfully.\r\n")]
        ),
        Step::Finish(Ok("Y:".to_string()))
    );
    assert_eq!(
        mount_network_share_windows(&request, &vec![failed("System error 53 has occurred.\r\n")]),
        fail("net use failed: System error 53 has occurred.")
    );
    assert_eq!(
        mount_network_share_windows(&request, &vec![not_started()]),
        fail("Failed to run 'net use': No such file or directory (os error 2)")
    );
}

#[test]
fn windows_rejects_sshfs_and_nfs() {
    assert_eq!(
        mount_network_share(Platform::Windows, &params("sshfs"), &vec![]),
        fail("SSHFS on Windows requires WinFSP and sshfs-win. Install from https://github.com/winfsp/sshfs-win")
    );
    assert_eq!(
        mount_network_share(Platform::Windows, &params("nfs"), &vec![ok("")]),
        fail("NFS on Windows requires 'Services for NFS' Windows feature to be enabled")
    );
}

#[test]
fn drive_that_was_assigned() {
    assert_eq!(parse_assigned_drive("Drive Z: is now assigned\n"), "assigned");
    assert_eq!(parse_assigned_drive("first\nletter assigned: X:  \nassigned W:\n"), "X:");
    assert_eq!(parse_assigned_drive("nothing"), "");
    assert_eq!(parse_assigned_drive(""), "");
    assert_eq!(parse_assigned_drive("unassigned"), "unassigned");
}
