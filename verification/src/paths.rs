//! Where files and sockets are, by what the environment says. Paths are strings of bytes.
use crate::bytes::extend;
use vstd::prelude::*;
use vstd::slice::slice_to_vec;

verus! {

const SLASH: u8 = 0x2f;

/// `.config`
pub const CONFIG_NAME: [u8; 7] = [0x2e, 0x63, 0x6f, 0x6e, 0x66, 0x69, 0x67];

/// `airfry`
pub const APP_NAME: [u8; 6] = [0x61, 0x69, 0x72, 0x66, 0x72, 0x79];

/// `config.json`
pub const CONFIG_FILE: [u8; 11] = [
    0x63, 0x6f, 0x6e, 0x66, 0x69, 0x67, 0x2e, 0x6a, 0x73, 0x6f, 0x6e,
];

/// `underscan`
pub const UNDERSCAN_FILE: [u8; 9] = [0x75, 0x6e, 0x64, 0x65, 0x72, 0x73, 0x63, 0x61, 0x6e];

/// `credentials.json`
pub const CREDENTIALS_FILE: [u8; 16] = [
    0x63, 0x72, 0x65, 0x64, 0x65, 0x6e, 0x74, 0x69, 0x61, 0x6c, 0x73, 0x2e, 0x6a, 0x73, 0x6f, 0x6e,
];

/// `airfry.sock`
pub const SOCKET_FILE: [u8; 11] = [
    0x61, 0x69, 0x72, 0x66, 0x72, 0x79, 0x2e, 0x73, 0x6f, 0x63, 0x6b,
];

/// `/tmp`
pub const TEMPORARY: [u8; 4] = [0x2f, 0x74, 0x6d, 0x70];

/// `.`
pub const HERE: [u8; 1] = [0x2e];

/// A name below a directory.
pub open spec fn joined(dir: Seq<u8>, name: Seq<u8>) -> Seq<u8> {
    if dir.len() == 0 || dir.last() == 0x2f {
        dir + name
    } else {
        dir.push(0x2f) + name
    }
}

/// A name below a directory.
pub fn join(dir: &[u8], name: &[u8]) -> (r: Vec<u8>)
    ensures
        r@ == joined(dir@, name@),
{
    let mut out: Vec<u8> = slice_to_vec(dir);
    if out.len() > 0 && out[out.len() - 1] != SLASH {
        out.push(SLASH);
    }
    extend(&mut out, name);
    out
}

/// What a variable holds, if it is set and not empty.
pub open spec fn set_value(v: Option<&[u8]>) -> Option<Seq<u8>> {
    match v {
        Some(b) => if b@.len() > 0 {
            Some(b@)
        } else {
            None
        },
        None => None,
    }
}

/// The directory of the settings: the one that is set for it, or else one below home.
pub open spec fn config_dir_of(config_home: Option<&[u8]>, home: Option<&[u8]>) -> Option<Seq<u8>> {
    match set_value(config_home) {
        Some(dir) => Some(dir),
        None => match home {
            Some(h) => Some(joined(h@, CONFIG_NAME@)),
            None => None,
        },
    }
}

fn config_dir(config_home: Option<&[u8]>, home: Option<&[u8]>) -> (r: Option<Vec<u8>>)
    ensures
        match config_dir_of(config_home, home) {
            Some(dir) => r matches Some(d) && d@ == dir,
            None => r is None,
        },
{
    if let Some(dir) = config_home {
        if dir.len() > 0 {
            return Some(slice_to_vec(dir));
        }
    }
    match home {
        Some(h) => Some(join(h, &CONFIG_NAME)),
        None => None,
    }
}

/// The file of the settings, by `XDG_CONFIG_HOME` and `HOME`; none when neither is set.
pub fn config_path(config_home: Option<&[u8]>, home: Option<&[u8]>) -> (r: Option<Vec<u8>>)
    ensures
        match config_dir_of(config_home, home) {
            Some(dir) => r matches Some(p) && p@ == joined(joined(dir, APP_NAME@), CONFIG_FILE@),
            None => r is None,
        },
{
    match config_dir(config_home, home) {
        Some(dir) => Some(join(join(dir.as_slice(), &APP_NAME).as_slice(), &CONFIG_FILE)),
        None => None,
    }
}

/// The file of the settings as the slider takes it: below the working directory when neither variable
/// is set.
pub fn slider_config_path(config_home: Option<&[u8]>, home: Option<&[u8]>) -> (r: Vec<u8>)
    ensures
        r@ == joined(
            joined(
                match config_dir_of(config_home, home) {
                    Some(dir) => dir,
                    None => CONFIG_NAME@,
                },
                APP_NAME@,
            ),
            CONFIG_FILE@,
        ),
{
    let dir: Vec<u8> = match config_dir(config_home, home) {
        Some(dir) => dir,
        None => slice_to_vec(&CONFIG_NAME),
    };
    join(join(dir.as_slice(), &APP_NAME).as_slice(), &CONFIG_FILE)
}

/// The file of the tray's own setting, beside the settings; none when neither variable is set.
pub fn tray_underscan_path(config_home: Option<&[u8]>, home: Option<&[u8]>) -> (r: Option<Vec<u8>>)
    ensures
        match config_dir_of(config_home, home) {
            Some(dir) => r matches Some(p) && p@ == joined(joined(dir, APP_NAME@), UNDERSCAN_FILE@),
            None => r is None,
        },
{
    match config_dir(config_home, home) {
        Some(dir) => Some(join(join(dir.as_slice(), &APP_NAME).as_slice(), &UNDERSCAN_FILE)),
        None => None,
    }
}

/// The file of the credentials, by `XDG_CONFIG_HOME` and `HOME`; below the working directory when
/// neither is set.
pub fn default_credentials_path(config_home: Option<&[u8]>, home: Option<&[u8]>) -> (r: Vec<u8>)
    ensures
        r@ == joined(
            joined(
                match config_dir_of(config_home, home) {
                    Some(dir) => dir,
                    None => joined(HERE@, CONFIG_NAME@),
                },
                APP_NAME@,
            ),
            CREDENTIALS_FILE@,
        ),
{
    let dir: Vec<u8> = match config_dir(config_home, home) {
        Some(dir) => dir,
        None => join(&HERE, &CONFIG_NAME),
    };
    join(join(dir.as_slice(), &APP_NAME).as_slice(), &CREDENTIALS_FILE)
}

/// The control socket, by `XDG_RUNTIME_DIR`.
pub fn default_socket_path(runtime_dir: Option<&[u8]>) -> (r: Vec<u8>)
    ensures
        r@ == joined(
            match set_value(runtime_dir) {
                Some(dir) => dir,
                None => TEMPORARY@,
            },
            SOCKET_FILE@,
        ),
{
    if let Some(dir) = runtime_dir {
        if dir.len() > 0 {
            return join(dir, &SOCKET_FILE);
        }
    }
    join(&TEMPORARY, &SOCKET_FILE)
}

} // verus!
