use server_setup::swap::{PatchError, PatchOutcome, PatchSession, SwapAction, SwapEvent};

/// Files held in memory, with chosen actions made to fail.
struct Disk {
    original: Option<String>,
    temp: Option<String>,
    fail_write: bool,
    fail_rename: bool,
}

fn drive(disk: &mut Disk, key: &str, value: &str) -> (Result<PatchOutcome, PatchError>, Vec<String>) {
    let mut session = PatchSession::new(key, value);
    let mut asked = Vec::new();
    loop {
        let action = session.action();
        asked.push(format!("{:?}", action));
        let event = match action {
            SwapAction::ReadOriginal => match &disk.original {
                Some(t) => SwapEvent::ReadOk(t.clone()),
                None => SwapEvent::NotFound,
            },
            SwapAction::WriteTemp(text) => {
                if disk.fail_write {
                    disk.temp = Some(text[..text.len() / 2].to_string());
                    SwapEvent::Failed
                } else {
                    disk.temp = Some(text);
                    SwapEvent::Succeeded
                }
            }
            SwapAction::RenameTemp => {
                if disk.fail_rename {
                    SwapEvent::Failed
                } else {
                    disk.original = disk.temp.take();
                    SwapEvent::Succeeded
                }
            }
            SwapAction::RemoveTemp => {
                disk.temp = None;
                SwapEvent::Succeeded
            }
            SwapAction::Finish(r) => return (r, asked),
        };
        session.step(event);
    }
}

fn disk(text: &str) -> Disk {
    Disk { original: Some(text.to_string()), temp: None, fail_write: false, fail_rename: false }
}

#[test]
fn patch_replaces_file_through_rename() {
    let mut d = disk("  eula=false\n");
    let (r, _) = drive(&mut d, "eula", "true");
    assert_eq!(r, Ok(PatchOutcome::Patched));
    assert_eq!(d.original.as_deref(), Some("  eula=true\n"));
    assert_eq!(d.temp, None);
}

#[test]
fn failed_write_leaves_file_unchanged() {
    let mut d = disk("a=1\neula=false\n");
    d.fail_write = true;
    let (r, asked) = drive(&mut d, "eula", "true");
    assert_eq!(r, Err(PatchError::Io));
    assert_eq!(d.original.as_deref(), Some("a=1\neula=false\n"));
    assert_eq!(d.temp, None);
    assert!(asked.iter().any(|a| a == "RemoveTemp"));
    assert!(!asked.iter().any(|a| a == "RenameTemp"));
}

#[test]
fn failed_rename_leaves_file_unchanged() {
    let mut d = disk("eula=false");
    d.fail_rename = true;
    let (r, _) = drive(&mut d, "eula", "true");
    assert_eq!(r, Err(PatchError::RenameFailed));
    assert_eq!(d.original.as_deref(), Some("eula=false"));
    assert_eq!(d.temp, None);
}

#[test]
fn missing_key_writes_nothing() {
    let mut d = disk("motd=hi");
    let (r, asked) = drive(&mut d, "eula", "true");
    assert_eq!(r, Ok(PatchOutcome::KeyNotFound));
    assert_eq!(d.original.as_deref(), Some("motd=hi"));
    assert_eq!(asked.len(), 2);
}

#[test]
fn missing_file_is_reported() {
    let mut d = Disk { original: None, temp: None, fail_write: false, fail_rename: false };
    let (r, _) = drive(&mut d, "eula", "true");
    assert_eq!(r, Err(PatchError::FileNotFound));
}

#[test]
fn failed_read_is_an_io_error() {
    let mut s = PatchSession::new("eula", "true");
    s.step(SwapEvent::Failed);
    assert!(s.is_finished());
    assert!(matches!(s.action(), SwapAction::Finish(Err(PatchError::Io))));
}

#[test]
fn temp_name_is_a_sibling_and_never_the_file() {
    assert_eq!(server_setup::swap::temp_path_for("/srv/mc/eula.txt"), "/srv/mc/eula.txt.tmp");
    assert_eq!(server_setup::swap::temp_path_for("notes.tmp"), "notes.tmp.tmp");
}
