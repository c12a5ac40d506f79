//! The build-time layer: from a literal name to what a macro call expands to.
//!
//! A name is checked once, where the program is built: a literal that holds a
//! zero byte is rejected with a message, any other is stored zero-terminated.

use crate::logger::points_of_interest;
use crate::logger::OsLog;
use crate::name::{has_nul, lemma_nul_char_iff_nul_byte, CName};
use vstd::prelude::*;
use vstd::utf8::encode_utf8;

verus! {

/// `syn::LitStr`, a string literal token. Opaque here: its text is reached
/// through [`lit_str_value`] only.
#[verifier::external_type_specification]
#[verifier::external_body]
pub struct ExLitStr(syn::LitStr);

/// The text that a string literal stands for, escapes resolved: what
/// `syn::LitStr::value` returns for it.
pub uninterp spec fn lit_str_value(lit: syn::LitStr) -> Seq<char>;

/// Calls `syn::LitStr::value`, which unescapes the literal's token text. The
/// contract claims only that the result is a function of the literal.
#[verifier::external_body]
fn lit_value(lit: &syn::LitStr) -> (text: String)
    ensures
        text@ == lit_str_value(*lit),
{
    lit.value()
}

/// The bytes that a string literal stands for, in UTF-8.
pub open spec fn lit_str_bytes(lit: syn::LitStr) -> Seq<u8> {
    encode_utf8(lit_str_value(lit))
}

/// Message for a logger name that holds a zero byte.
pub open spec fn logger_name_message() -> Seq<char> {
    "The logger name can not contain NULL bytes"@
}

/// Message for an event or interval name that holds a zero byte.
pub open spec fn event_name_message() -> Seq<char> {
    "The event name can not contain NULL bytes"@
}

/// Turns a literal into a zero-terminated name.
///
/// A literal whose text holds the NUL character, which is to say a zero byte,
/// is handed back unchanged as the error; any other gives the name made of
/// its UTF-8 bytes.
pub fn str_lit_to_static_cstr(input: syn::LitStr) -> (r: Result<CName, syn::LitStr>)
    ensures
        r is Err <==> lit_str_value(input).contains('\0'),
        match r {
            Ok(name) => !has_nul(lit_str_bytes(input)) && name@ == lit_str_bytes(input),
            Err(lit) => has_nul(lit_str_bytes(input)) && lit == input,
        },
{
    let text = lit_value(&input);
    proof {
        lemma_nul_char_iff_nul_byte(text@);
    }
    match CName::new(text.as_str()) {
        Ok(name) => Ok(name),
        Err(_) => Err(input),
    }
}

/// `syn::Expr`, a parsed expression. Opaque here: it is carried from a macro
/// call into its expansion untouched.
#[verifier::external_type_specification]
#[verifier::external_body]
pub struct ExExpr(syn::Expr);

/// The argument of the macro that constructs a logger: the subsystem.
pub struct PoiLoggerArgs {
    pub name: syn::LitStr,
}

/// The arguments of the macros that emit an event or begin an interval: the
/// logger, the identifier, and the name.
pub struct EventArgs {
    pub log: syn::Expr,
    pub id: syn::Expr,
    pub name: syn::LitStr,
}

/// A literal that a macro call refuses, with the message to report at it.
pub struct Rejection {
    /// The refused literal, to point the diagnostic at.
    pub literal: syn::LitStr,
    /// What to tell the programmer.
    pub message: &'static str,
}

/// What a macro call expands to.
pub enum Expansion {
    /// Construction of a logger for `subsystem` and `category`.
    Logger { subsystem: CName, category: CName },
    /// A call of `emit_event` on `log` with `id` and `name`.
    EmitEvent { log: syn::Expr, id: syn::Expr, name: CName },
    /// A call of `begin_interval` on `log` with `id` and `name`.
    BeginInterval { log: syn::Expr, id: syn::Expr, name: CName },
}

/// Expands the construction of a logger for points of interest.
///
/// The literal names the subsystem; the category is fixed. A name that holds
/// a zero byte is rejected.
pub fn const_poi_logger(args: PoiLoggerArgs) -> (r: Result<Expansion, Rejection>)
    ensures
        match r {
            Ok(Expansion::Logger { subsystem, category }) => {
                &&& !has_nul(lit_str_bytes(args.name))
                &&& subsystem@ == lit_str_bytes(args.name)
                &&& category@ == points_of_interest()
            },
            Ok(_) => false,
            Err(rejection) => {
                &&& has_nul(lit_str_bytes(args.name))
                &&& rejection.literal == args.name
                &&& rejection.message@ == logger_name_message()
            },
        },
{
    match str_lit_to_static_cstr(args.name) {
        Ok(subsystem) => Ok(
            Expansion::Logger { subsystem, category: OsLog::category_points_of_interest() },
        ),
        Err(literal) => Err(
            Rejection { literal, message: "The logger name can not contain NULL bytes" },
        ),
    }
}

/// Expands the emission of an event.
///
/// The logger and the identifier go into the call as they came. A name that
/// holds a zero byte is rejected.
pub fn emit_event(args: EventArgs) -> (r: Result<Expansion, Rejection>)
    ensures
        match r {
            Ok(Expansion::EmitEvent { log, id, name }) => {
                &&& !has_nul(lit_str_bytes(args.name))
                &&& log == args.log
                &&& id == args.id
                &&& name@ == lit_str_bytes(args.name)
            },
            Ok(_) => false,
            Err(rejection) => {
                &&& has_nul(lit_str_bytes(args.name))
                &&& rejection.literal == args.name
                &&& rejection.message@ == event_name_message()
            },
        },
{
    match str_lit_to_static_cstr(args.name) {
        Ok(name) => Ok(Expansion::EmitEvent { log: args.log, id: args.id, name }),
        Err(literal) => Err(
            Rejection { literal, message: "The event name can not contain NULL bytes" },
        ),
    }
}

/// Expands the beginning of an interval.
///
/// The logger and the identifier go into the call as they came. A name that
/// holds a zero byte is rejected.
pub fn begin_interval(args: EventArgs) -> (r: Result<Expansion, Rejection>)
    ensures
        match r {
            Ok(Expansion::BeginInterval { log, id, name }) => {
                &&& !has_nul(lit_str_bytes(args.name))
                &&& log == args.log
                &&& id == args.id
                &&& name@ == lit_str_bytes(args.name)
            },
            Ok(_) => false,
            Err(rejection) => {
                &&& has_nul(lit_str_bytes(args.name))
                &&& rejection.literal == args.name
                &&& rejection.message@ == event_name_message()
            },
        },
{
    match str_lit_to_static_cstr(args.name) {
        Ok(name) => Ok(Expansion::BeginInterval { log: args.log, id: args.id, name }),
        Err(literal) => Err(
            Rejection { literal, message: "The event name can not contain NULL bytes" },
        ),
    }
}

} // verus!
