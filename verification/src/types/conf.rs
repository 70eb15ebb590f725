//! The description of a command-line surface: a command, its subcommands and
//! their parameters.

use vstd::prelude::*;

verus! {

/// One parameter of a subcommand: its long name and its short name.
#[derive(Debug, PartialEq)]
pub struct SubCommandParam {
    pub name: String,
    pub short_name: String,
}

/// One subcommand with its help text and parameters.
#[derive(Debug, PartialEq)]
pub struct SubCommand {
    pub command_name: String,
    pub about: String,
    pub args: Vec<SubCommandParam>,
}

/// The whole command: identity, help text, and its subcommands.
#[derive(Debug, PartialEq)]
pub struct Conf {
    pub command_name: String,
    pub version: String,
    pub author: String,
    pub about: String,
    pub subcommand_required: bool,
    pub arg_required_else_help: bool,
    pub sub_commands: Vec<SubCommand>,
}

} // verus!
