use palcommand::rest::{post_failure_message, rest_error, transport_failure_message, RestClient};
use palcommand::sftp::{
    failure_message, friendly_error, get_batch, ls_batch, missing_download_message, parse_ls, probe_batch,
    put_batch, sftp_args, sftp_quote, trim_sftp_output, Session, SftpConfig,
};

fn session() -> Session {
    Session::new(
        SftpConfig {
            host: "example.net".into(),
            port: 2022,
            user: "bob".into(),
            password: "pw".into(),
        },
        "/tmp/askpass.cmd".into(),
        "/tmp/sftp-tmp".into(),
    )
}

#[test]
fn sftp_output_is_condensed() {
    assert_eq!(
        trim_sftp_output("sftp> pwd\r\nRemote working directory: /\n\n  done  \n"),
        "Remote working directory: / · done"
    );
    assert_eq!(trim_sftp_output(""), "");
    assert_eq!(trim_sftp_output("sftp> bye\n"), "");
}

#[test]
fn sftp_errors_are_made_friendly() {
    assert_eq!(
        friendly_error("", "user@host: Permission denied (password)."),
        "SFTP authentication failed — check the SFTP password (same as your Host Havoc panel login)."
    );
    assert_eq!(
        friendly_error("File \"/x\" not found.\nNo such file or directory", ""),
        "SFTP: file or directory not found."
    );
    assert_eq!(
        friendly_error("", "ssh: connect to host h port 22: Connection refused"),
        "SFTP: can't reach the server — ssh: connect to host h port 22: Connection refused"
    );
    assert_eq!(
        friendly_error("", "ssh_askpass: exec failed"),
        "SFTP: password helper didn't run. Make sure Windows OpenSSH Client is installed (Settings → Apps → Optional Features)."
    );
    assert_eq!(friendly_error("out", "err"), "err · out");
}

#[test]
fn failure_messages_read_the_lowered_text() {
    assert_eq!(
        failure_message("whatever", "permission denied"),
        "SFTP authentication failed — check the SFTP password (same as your Host Havoc panel login)."
    );
    assert_eq!(failure_message("A\nB", "Permission Denied"), "A · B");
    assert_eq!(
        failure_message("sftp> x\nCould not resolve hostname", "could not resolve hostname"),
        "SFTP: can't reach the server — Could not resolve hostname"
    );
}

#[test]
fn ls_output_is_parsed() {
    let out = "sftp> ls -1 Pal/Saved/SaveGames/0\nPal/Saved/SaveGames/0/ABCDEF\nPal/Saved/SaveGames/0/123\n.\n..\nFetching /x to y\n-rw-r--r-- 1 u g 1 Jan 1 10:00 file\nplain\n";
    assert_eq!(
        parse_ls(out, "Pal/Saved/SaveGames/0/"),
        vec!["ABCDEF".to_string(), "123".to_string(), "plain".to_string()]
    );
    assert!(parse_ls("", "x").is_empty());
}

#[test]
fn paths_are_quoted_for_batches() {
    assert_eq!(sftp_quote("plain/path"), "plain/path");
    assert_eq!(sftp_quote("with space"), "\"with space\"");
    assert_eq!(sftp_quote("C:\\dir\\f"), "\"C:\\dir\\f\"");
    assert_eq!(sftp_quote("a \"b\""), "\"a \\\"b\\\"\"");
    assert_eq!(probe_batch(), "pwd\nbye\n");
    assert_eq!(get_batch("r/x", "l y"), "get r/x \"l y\"\nbye\n");
    assert_eq!(put_batch("l", "r"), "put l r\nbye\n");
    assert_eq!(ls_batch("d"), "ls -1 d\nbye\n");
}

#[test]
fn sftp_command_line() {
    let s = session();
    assert_eq!(
        sftp_args(&s, "/kh"),
        vec![
            "-oBatchMode=no",
            "-oStrictHostKeyChecking=accept-new",
            "-oUserKnownHostsFile=/kh",
            "-oConnectTimeout=10",
            "-oPubkeyAuthentication=no",
            "-oPreferredAuthentications=password,keyboard-interactive",
            "-P",
            "2022",
            "-b",
            "-",
            "bob@example.net",
        ]
    );
    assert_eq!(s.askpass(), "/tmp/askpass.cmd");
    assert_eq!(s.password(), "pw");
    assert_eq!(s.temp_file("dl-1"), "/tmp/sftp-tmp/dl-1");
    assert_eq!(
        missing_download_message("p", "sftp> get\nok\n"),
        "download p: sftp reported success but the file wasn't created — ok"
    );
}

#[test]
fn rest_urls_and_errors() {
    let c = RestClient::new("http://host:8212///", "secret");
    assert_eq!(c.url("info"), "http://host:8212/v1/api/info");
    assert_eq!(c.password(), "secret");
    assert_eq!(rest_error(401, "info"), "REST auth failed (401) — check the Admin Password");
    assert_eq!(rest_error(403, "info"), "REST forbidden (403)");
    assert_eq!(
        rest_error(404, "metrics"),
        "REST endpoint /metrics not found (404) — is the REST API enabled on this build?"
    );
    assert_eq!(rest_error(500, "save"), "REST 500 on /save");
    assert_eq!(post_failure_message(500, "save", "  \n"), "REST 500 on /save");
    assert_eq!(post_failure_message(400, "kick", " bad id \n"), "REST 400 on /kick — bad id");
    assert_eq!(
        transport_failure_message(true, true, "x".into()),
        "REST timed out — server may be down, mid-save, or the port isn't reachable"
    );
    assert_eq!(
        transport_failure_message(false, true, "x".into()),
        "Can't reach the REST API — check the URL/port and that it's enabled + open in the firewall"
    );
    assert_eq!(transport_failure_message(false, false, "x".into()), "x");
}
