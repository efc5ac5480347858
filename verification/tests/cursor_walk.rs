use azure_storage_cli::commands::{GenerateSas, SasPermissions, TimeFormat};
use azure_storage_cli::cursor::UploadCursor;

#[test]
fn cursor_walks_forward_in_capped_windows() {
    let mut cursor = UploadCursor::new(1000);
    assert!(!cursor.finished());
    assert_eq!(cursor.window_len(400), 400);
    cursor.advance(400);
    assert_eq!(cursor.position, 400);
    cursor.advance(400);
    assert_eq!(cursor.window_len(400), 200);
    cursor.advance(200);
    assert!(cursor.finished());
    assert_eq!(cursor.window_len(400), 0);
}

#[test]
fn empty_source_is_finished_immediately() {
    let cursor = UploadCursor::new(0);
    assert!(cursor.finished());
    assert_eq!(cursor.window_len(4096), 0);
}

#[test]
fn command_data_is_constructible() {
    let request = GenerateSas {
        expiry: "1h".to_string(),
        start: None,
        time_format: TimeFormat::Offset,
        ip: None,
        identifier: None,
        protocol: None,
        sas_permissions: SasPermissions {
            read: true,
            add: false,
            create: false,
            write: false,
            delete: false,
            delete_version: false,
            list: true,
            tags: false,
            move_: false,
            execute: false,
            ownership: false,
            permissions: false,
            permanent_delete: false,
        },
    };
    assert_eq!(request.expiry, "1h");
    assert!(request.sas_permissions.read);
    assert!(!request.sas_permissions.write);
}
