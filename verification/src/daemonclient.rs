//! The commands that a client sends to the daemon.
use crate::paths::{default_socket_path, joined, set_value, SOCKET_FILE, TEMPORARY};
use crate::protocol::{command, Request, RequestView};
use vstd::prelude::*;
use vstd::slice::slice_to_vec;

verus! {

fn plain_command(cmd: &str) -> (r: Request)
    ensures
        r@ == command(cmd@),
{
    let mut r = Request::default();
    r.cmd = cmd.to_owned();
    r
}

fn command_for(cmd: &str, target: &str) -> (r: Request)
    ensures
        r@ == (RequestView { target: target@, ..command(cmd@) }),
{
    let mut r: Request = plain_command(cmd);
    r.target = target.to_owned();
    r
}

/// A client of the daemon. Each of its methods is a command, as it is sent over the socket.
pub struct Client {
    pub socket_path: Vec<u8>,
}

impl Client {
    /// A client of the daemon at a socket.
    pub fn new(socket_path: &[u8]) -> (r: Client)
        ensures
            r.socket_path@ == socket_path@,
    {
        Client { socket_path: slice_to_vec(socket_path) }
    }

    /// A client of the daemon at the default socket, by `XDG_RUNTIME_DIR`.
    pub fn new_default(runtime_dir: Option<&[u8]>) -> (r: Client)
        ensures
            r.socket_path@ == joined(
                match set_value(runtime_dir) {
                    Some(dir) => dir,
                    None => TEMPORARY@,
                },
                SOCKET_FILE@,
            ),
    {
        Client { socket_path: default_socket_path(runtime_dir) }
    }

    /// Asks for the state.
    pub fn status(&self) -> (r: Request)
        ensures
            r@ == command("status"@),
    {
        plain_command("status")
    }

    /// Asks for a scan and the receivers that were found.
    pub fn discover(&self) -> (r: Request)
        ensures
            r@ == command("discover"@),
    {
        plain_command("discover")
    }

    /// Asks for the receivers that are known.
    pub fn devices(&self) -> (r: Request)
        ensures
            r@ == command("devices"@),
    {
        plain_command("devices")
    }

    /// Starts to mirror to a receiver, or to the first free one where none is named.
    pub fn connect(&self, target: &str, port: i32, pin: &str) -> (r: Request)
        ensures
            r@ == (RequestView { cmd: "connect"@, target: target@, port, pin: pin@ }),
    {
        Request { cmd: "connect".to_owned(), target: target.to_owned(), port, pin: pin.to_owned() }
    }

    /// Gives the code that a receiver shows.
    pub fn pin(&self, code: &str) -> (r: Request)
        ensures
            r@ == (RequestView { pin: code@, ..command("pin"@) }),
    {
        let mut r: Request = plain_command("pin");
        r.pin = code.to_owned();
        r
    }

    /// Ends all streams.
    pub fn disconnect(&self) -> (r: Request)
        ensures
            r@ == command("disconnect"@),
    {
        plain_command("disconnect")
    }

    /// Ends the stream to a receiver.
    pub fn disconnect_target(&self, target: &str) -> (r: Request)
        ensures
            r@ == (RequestView { target: target@, ..command("disconnect"@) }),
    {
        command_for("disconnect", target)
    }

    /// Mutes all streams.
    pub fn mute(&self) -> (r: Request)
        ensures
            r@ == command("mute"@),
    {
        plain_command("mute")
    }

    /// Mutes the stream to a receiver.
    pub fn mute_target(&self, target: &str) -> (r: Request)
        ensures
            r@ == (RequestView { target: target@, ..command("mute"@) }),
    {
        command_for("mute", target)
    }

    /// Unmutes all streams.
    pub fn unmute(&self) -> (r: Request)
        ensures
            r@ == command("unmute"@),
    {
        plain_command("unmute")
    }

    /// Unmutes the stream to a receiver.
    pub fn unmute_target(&self, target: &str) -> (r: Request)
        ensures
            r@ == (RequestView { target: target@, ..command("unmute"@) }),
    {
        command_for("unmute", target)
    }
}

} // verus!
