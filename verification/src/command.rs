//! Commands sent on the FTP control connection, and connection addresses.
use vstd::prelude::*;
use vstd::string::StrSliceExecFns;
use vstd::utf8::encode_utf8;
use crate::text::{decimal, push_char, push_decimal};

verus! {

/// A command of the FTP control connection.
#[derive(Debug, PartialEq, Eq)]
pub enum FtpCommand {
    User(String),
    Pass(String),
    /// `TYPE I`: binary transfers.
    TypeImage,
    Pwd,
    Cwd(String),
    Cdup,
    Pasv,
    List,
    Mlsd,
    /// Restart the next transfer at this byte offset.
    Rest(usize),
    Stor(String),
    Retr(String),
}

/// The text of a command line, without its line end.
pub open spec fn command_line(c: FtpCommand) -> Seq<char> {
    match c {
        FtpCommand::User(u) => "USER "@ + u@,
        FtpCommand::Pass(p) => "PASS "@ + p@,
        FtpCommand::TypeImage => "TYPE I"@,
        FtpCommand::Pwd => "PWD"@,
        FtpCommand::Cwd(p) => "CWD "@ + p@,
        FtpCommand::Cdup => "CDUP"@,
        FtpCommand::Pasv => "PASV"@,
        FtpCommand::List => "LIST"@,
        FtpCommand::Mlsd => "MLSD"@,
        FtpCommand::Rest(n) => "REST "@ + decimal(n as nat),
        FtpCommand::Stor(f) => "STOR "@ + f@,
        FtpCommand::Retr(f) => "RETR "@ + f@,
    }
}

/// The bytes sent for a command: its line, then CR LF, in UTF-8.
pub open spec fn command_frame(c: FtpCommand) -> Seq<u8> {
    encode_utf8(command_line(c) + "\r\n"@)
}

fn with_argument(verb: &str, arg: &str) -> (s: String)
    ensures
        s@ == verb@ + arg@,
{
    let mut s = String::from_str(verb);
    s.append(arg);
    s
}

impl FtpCommand {
    /// The command line, without its line end.
    pub fn line(&self) -> (s: String)
        ensures
            s@ == command_line(*self),
            self matches FtpCommand::User(u) ==> s@ == "USER "@ + u@,
            self matches FtpCommand::Pass(p) ==> s@ == "PASS "@ + p@,
            *self is TypeImage ==> s@ == "TYPE I"@,
            *self is Pwd ==> s@ == "PWD"@,
            self matches FtpCommand::Cwd(p) ==> s@ == "CWD "@ + p@,
            *self is Cdup ==> s@ == "CDUP"@,
            *self is Pasv ==> s@ == "PASV"@,
            *self is List ==> s@ == "LIST"@,
            *self is Mlsd ==> s@ == "MLSD"@,
            self matches FtpCommand::Rest(n) ==> s@ == "REST "@ + decimal(n as nat),
            self matches FtpCommand::Stor(f) ==> s@ == "STOR "@ + f@,
            self matches FtpCommand::Retr(f) ==> s@ == "RETR "@ + f@,
    {
        match self {
            FtpCommand::User(u) => with_argument("USER ", u.as_str()),
            FtpCommand::Pass(p) => with_argument("PASS ", p.as_str()),
            FtpCommand::TypeImage => String::from_str("TYPE I"),
            FtpCommand::Pwd => String::from_str("PWD"),
            FtpCommand::Cwd(p) => with_argument("CWD ", p.as_str()),
            FtpCommand::Cdup => String::from_str("CDUP"),
            FtpCommand::Pasv => String::from_str("PASV"),
            FtpCommand::List => String::from_str("LIST"),
            FtpCommand::Mlsd => String::from_str("MLSD"),
            FtpCommand::Rest(n) => {
                let mut s = String::from_str("REST ");
                push_decimal(&mut s, *n as u64);
                s
            },
            FtpCommand::Stor(f) => with_argument("STOR ", f.as_str()),
            FtpCommand::Retr(f) => with_argument("RETR ", f.as_str()),
        }
    }

    /// The bytes to write on the control connection for this command.
    pub fn frame(&self) -> (b: Vec<u8>)
        ensures
            b@ == command_frame(*self),
            b@ == encode_utf8(command_line(*self) + "\r\n"@),
    {
        frame_line(self.line().as_str())
    }
}

/// The bytes written on the control connection for a line: its text, then
/// CR LF, in UTF-8.
pub fn frame_line(line: &str) -> (b: Vec<u8>)
    ensures
        b@ == encode_utf8(line@ + "\r\n"@),
{
    let mut s = String::from_str(line);
    s.append("\r\n");
    s.as_str().as_bytes_vec()
}

/// `host:port`, the address a connection is opened to.
pub open spec fn address_of(host: Seq<char>, port: u16) -> Seq<char> {
    host + seq![':'] + decimal(port as nat)
}

/// The address `host:port`.
pub fn address(host: &str, port: u16) -> (s: String)
    ensures
        s@ == address_of(host@, port),
        s@ == host@ + seq![':'] + decimal(port as nat),
{
    let mut s = String::from_str(host);
    push_char(&mut s, ':');
    push_decimal(&mut s, port as u64);
    s
}

} // verus!
