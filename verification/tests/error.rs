use axerrno::AxError;
use dfs_host::error::{io_err_to_axerr, unix_ty_to_axty, ErrorKind, FileKind, IoErrorKind};
use dfs_host::error::{TYPE_DIR, TYPE_FILE};

#[test]
fn codes_are_those_of_axerrno() {
    assert_eq!(ErrorKind::NotFound.code(), AxError::NotFound.code());
    assert_eq!(ErrorKind::PermissionDenied.code(), AxError::PermissionDenied.code());
    assert_eq!(ErrorKind::ConnectionRefused.code(), AxError::ConnectionRefused.code());
    assert_eq!(ErrorKind::ConnectionReset.code(), AxError::ConnectionReset.code());
    assert_eq!(ErrorKind::NotConnected.code(), AxError::NotConnected.code());
    assert_eq!(ErrorKind::AddrInUse.code(), AxError::AddrInUse.code());
    assert_eq!(ErrorKind::AlreadyExists.code(), AxError::AlreadyExists.code());
    assert_eq!(ErrorKind::WouldBlock.code(), AxError::WouldBlock.code());
    assert_eq!(ErrorKind::InvalidInput.code(), AxError::InvalidInput.code());
    assert_eq!(ErrorKind::InvalidData.code(), AxError::InvalidData.code());
    assert_eq!(ErrorKind::WriteZero.code(), AxError::WriteZero.code());
    assert_eq!(ErrorKind::Unsupported.code(), AxError::Unsupported.code());
    assert_eq!(ErrorKind::UnexpectedEof.code(), AxError::UnexpectedEof.code());
    assert_eq!(ErrorKind::Io.code(), AxError::Io.code());
    assert_eq!(ErrorKind::BadState.code(), AxError::BadState.code());
}

#[test]
fn exact_codes() {
    assert_eq!(ErrorKind::AddrInUse.code(), 1);
    assert_eq!(ErrorKind::AlreadyExists.code(), 3);
    assert_eq!(ErrorKind::BadState.code(), 7);
    assert_eq!(ErrorKind::ConnectionRefused.code(), 9);
    assert_eq!(ErrorKind::ConnectionReset.code(), 10);
    assert_eq!(ErrorKind::InvalidData.code(), 17);
    assert_eq!(ErrorKind::InvalidInput.code(), 19);
    assert_eq!(ErrorKind::Io.code(), 20);
    assert_eq!(ErrorKind::NotConnected.code(), 29);
    assert_eq!(ErrorKind::NotFound.code(), 30);
    assert_eq!(ErrorKind::PermissionDenied.code(), 34);
    assert_eq!(ErrorKind::UnexpectedEof.code(), 40);
    assert_eq!(ErrorKind::Unsupported.code(), 41);
    assert_eq!(ErrorKind::WouldBlock.code(), 42);
    assert_eq!(ErrorKind::WriteZero.code(), 43);
}

fn all_kinds() -> Vec<ErrorKind> {
    vec![
        ErrorKind::NotFound,
        ErrorKind::PermissionDenied,
        ErrorKind::ConnectionRefused,
        ErrorKind::ConnectionReset,
        ErrorKind::NotConnected,
        ErrorKind::AddrInUse,
        ErrorKind::AlreadyExists,
        ErrorKind::WouldBlock,
        ErrorKind::InvalidInput,
        ErrorKind::InvalidData,
        ErrorKind::WriteZero,
        ErrorKind::Unsupported,
        ErrorKind::UnexpectedEof,
        ErrorKind::Io,
        ErrorKind::BadState,
    ]
}

#[test]
fn a_code_leads_back_to_its_kind() {
    for kind in all_kinds() {
        assert_eq!(ErrorKind::from_code(kind.code()), Some(kind));
    }
}

#[test]
fn codes_without_a_kind() {
    assert_eq!(ErrorKind::from_code(0), None);
    assert_eq!(ErrorKind::from_code(-30), None);
    assert_eq!(ErrorKind::from_code(2), None);
    assert_eq!(ErrorKind::from_code(44), None);
    assert_eq!(ErrorKind::from_code(i32::MAX), None);
}

#[test]
fn file_system_failures_keep_their_kind() {
    assert_eq!(io_err_to_axerr(IoErrorKind::NotFound), ErrorKind::NotFound);
    assert_eq!(io_err_to_axerr(IoErrorKind::PermissionDenied), ErrorKind::PermissionDenied);
    assert_eq!(io_err_to_axerr(IoErrorKind::ConnectionRefused), ErrorKind::ConnectionRefused);
    assert_eq!(io_err_to_axerr(IoErrorKind::ConnectionReset), ErrorKind::ConnectionReset);
    assert_eq!(io_err_to_axerr(IoErrorKind::NotConnected), ErrorKind::NotConnected);
    assert_eq!(io_err_to_axerr(IoErrorKind::AddrInUse), ErrorKind::AddrInUse);
    assert_eq!(io_err_to_axerr(IoErrorKind::AlreadyExists), ErrorKind::AlreadyExists);
    assert_eq!(io_err_to_axerr(IoErrorKind::WouldBlock), ErrorKind::WouldBlock);
    assert_eq!(io_err_to_axerr(IoErrorKind::InvalidInput), ErrorKind::InvalidInput);
    assert_eq!(io_err_to_axerr(IoErrorKind::InvalidData), ErrorKind::InvalidData);
    assert_eq!(io_err_to_axerr(IoErrorKind::WriteZero), ErrorKind::WriteZero);
    assert_eq!(io_err_to_axerr(IoErrorKind::Unsupported), ErrorKind::Unsupported);
    assert_eq!(io_err_to_axerr(IoErrorKind::UnexpectedEof), ErrorKind::UnexpectedEof);
}

#[test]
fn other_file_system_failures_are_unsupported() {
    assert_eq!(io_err_to_axerr(IoErrorKind::Other), ErrorKind::Unsupported);
}

#[test]
fn file_kinds_have_stable_wire_values() {
    assert_eq!(unix_ty_to_axty(FileKind::Fifo), 1);
    assert_eq!(unix_ty_to_axty(FileKind::CharDevice), 2);
    assert_eq!(unix_ty_to_axty(FileKind::Dir), 4);
    assert_eq!(unix_ty_to_axty(FileKind::BlockDevice), 6);
    assert_eq!(unix_ty_to_axty(FileKind::File), 8);
    assert_eq!(unix_ty_to_axty(FileKind::Symlink), 10);
    assert_eq!(unix_ty_to_axty(FileKind::Socket), 12);
    assert_eq!(unix_ty_to_axty(FileKind::Unknown), 0);
    assert_eq!(TYPE_DIR, 4);
    assert_eq!(TYPE_FILE, 8);
}
