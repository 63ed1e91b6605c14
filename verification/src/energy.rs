//! The energy commands: which request each of them makes.
//!
//! Nothing here talks to a server. A command is turned into the request
//! that the caller then sends, and into what it shows of the answer.

use vstd::prelude::*;
use vstd::string::StringExecFns;
use crate::text::str_eq;

verus! {

/// The subcommands of `energy`.
#[derive(Debug, Clone, Copy, PartialEq, Eq, Structural)]
pub enum EnergyCommand {
    /// `status`: show the balance of an identity.
    Status,
    /// `set-balance`: set the balance of an identity.
    SetBalance,
}

/// How a request is sent.
#[derive(Debug, Clone, Copy, PartialEq, Eq, Structural)]
pub enum Method {
    Get,
    Post,
}

/// One request to the energy endpoint.
#[derive(Debug, Clone, PartialEq, Eq)]
pub struct EnergyRequest {
    pub method: Method,
    pub url: String,
    /// The value of the query parameter `balance`, where the request has one.
    pub balance: Option<u64>,
}

/// What a command does: the request it sends, and whether it prints the
/// body of the answer.
#[derive(Debug, Clone, PartialEq, Eq)]
pub struct EnergyAction {
    pub request: EnergyRequest,
    pub print_body: bool,
}

/// The address of the energy endpoint of `identity` on `host`.
pub open spec fn endpoint(host: Seq<char>, identity: Seq<char>) -> Seq<char> {
    host + "/energy/"@ + identity
}

/// The command that `cmd` names; for any other word, what to tell the user.
pub open spec fn command_named(cmd: Seq<char>) -> Result<EnergyCommand, Seq<char>> {
    if cmd == "status"@ {
        Ok(EnergyCommand::Status)
    } else if cmd == "set-balance"@ {
        Ok(EnergyCommand::SetBalance)
    } else {
        Err("Invalid subcommand: "@ + cmd)
    }
}

/// The address of the energy endpoint of `identity` on `host`.
pub fn energy_url(host: &str, identity: &str) -> (url: String)
    ensures
        url@ == endpoint(host@, identity@),
{
    let mut url = host.to_owned();
    url.append("/energy/");
    url.append(identity);
    url
}

/// The identity that a command is about: the one given, else the default
/// one; none where neither is there.
pub fn resolve_identity<'a>(given: Option<&'a str>, default: Option<&'a str>) -> (out: Option<
    &'a str,
>)
    ensures
        out == (if given is Some {
            given
        } else {
            default
        }),
{
    match given {
        Some(identity) => Some(identity),
        None => default,
    }
}

/// Finds the subcommand that `cmd` names.
pub fn exec_subcommand(cmd: &str) -> (out: Result<EnergyCommand, String>)
    ensures
        match command_named(cmd@) {
            Ok(command) => out == Ok::<EnergyCommand, String>(command),
            Err(words) => out matches Err(said) && said@ == words,
        },
{
    if str_eq(cmd, "status") {
        Ok(EnergyCommand::Status)
    } else if str_eq(cmd, "set-balance") {
        Ok(EnergyCommand::SetBalance)
    } else {
        let mut said = "Invalid subcommand: ".to_owned();
        said.append(cmd);
        Err(said)
    }
}

/// What `status` does: a `GET` of the endpoint, whose answer is printed.
pub fn exec_status(host: &str, identity: &str) -> (out: EnergyAction)
    ensures
        out.request.method == Method::Get,
        out.request.url@ == endpoint(host@, identity@),
        out.request.balance is None,
        out.print_body,
{
    let request = EnergyRequest {
        method: Method::Get,
        url: energy_url(host, identity),
        balance: None,
    };
    EnergyAction { request, print_body: true }
}

/// The request that sets the balance of `identity` to `balance`: a `POST`
/// of the endpoint with the balance as a query parameter.
pub fn set_balance(host: &str, identity: &str, balance: u64) -> (out: EnergyRequest)
    ensures
        out.method == Method::Post,
        out.url@ == endpoint(host@, identity@),
        out.balance == Some(balance),
{
    EnergyRequest { method: Method::Post, url: energy_url(host, identity), balance: Some(balance) }
}

/// What `set-balance` does: the request of [`set_balance`], whose answer is
/// printed unless the command is quiet.
pub fn exec_update_balance(host: &str, identity: &str, balance: u64, quiet: bool) -> (out:
    EnergyAction)
    ensures
        out.request.method == Method::Post,
        out.request.url@ == endpoint(host@, identity@),
        out.request.balance == Some(balance),
        out.print_body == !quiet,
{
    EnergyAction { request: set_balance(host, identity, balance), print_body: !quiet }
}

} // verus!
