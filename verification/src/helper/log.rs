//! The helpers `log` and `json`.
use vstd::prelude::*;
use crate::error::helper::HelperErrorView;
use crate::helper::{Helper, HelperValue};
use crate::json::{entry, entry_of, lemma_views, views, Json, JsonView};
use crate::outside::json_text;
use crate::render::context::{arity_error, Context, ContextView};
use crate::text::{append, bytes_eq, bytes_of, str_bytes};

verus! {

/// `{{log message ...}}`: takes a message of one argument or more and
/// gives nothing. What becomes of the message is up to the program that
/// embeds the engine.
#[derive(Clone, Copy, Debug)]
pub struct LogHelper;

/// `{{json value}}`: the JSON text of a value.
#[derive(Clone, Copy, Debug)]
pub struct JsonHelper;

impl Helper for LogHelper {
    open spec fn result(&self, ctx: ContextView) -> Result<Option<JsonView>, HelperErrorView> {
        match arity_error(ctx, 1, usize::MAX) {
            Some(e) => Err(e),
            None => Ok(None),
        }
    }

    fn call(&self, ctx: &Context) -> (r: HelperValue) {
        match ctx.arity(1..usize::MAX) {
            Err(e) => Err(e),
            Ok(()) => Ok(None),
        }
    }
}

impl Helper for JsonHelper {
    open spec fn result(&self, ctx: ContextView) -> Result<Option<JsonView>, HelperErrorView> {
        match arity_error(ctx, 1, 1) {
            Some(e) => Err(e),
            None => Ok(Some(JsonView::String(json_text(ctx.arguments[0])))),
        }
    }

    fn call(&self, ctx: &Context) -> (r: HelperValue) {
        proof {
            lemma_views(ctx.arguments@);
        }
        match ctx.arity(1..1) {
            Err(e) => Err(e),
            Ok(()) => Ok(Some(Json::String(ctx.arguments[0].to_json()))),
        }
    }
}

/// How much a message matters.
#[derive(Clone, Copy, Debug, PartialEq, Eq, Structural)]
pub enum Level {
    Error,
    Warn,
    Info,
    Debug,
    Trace,
}

/// The level that a text names; `info` where it names none.
pub open spec fn level_named(name: Seq<u8>) -> Level {
    if name == bytes_of("error"@) {
        Level::Error
    } else if name == bytes_of("warn"@) {
        Level::Warn
    } else if name == bytes_of("debug"@) {
        Level::Debug
    } else if name == bytes_of("trace"@) {
        Level::Trace
    } else {
        Level::Info
    }
}

/// The level of a message: the one that the named parameter `level` names.
pub open spec fn level_of(ctx: ContextView) -> Level {
    match entry_of(ctx.hash, bytes_of("level"@)) {
        Some(JsonView::String(name)) => level_named(bytes_of(name)),
        _ => Level::Info,
    }
}

/// The message: the JSON texts of the arguments from index `i` on, with a
/// space between one and the next, after `acc`.
pub open spec fn message_from(args: Seq<JsonView>, i: int, acc: Seq<u8>) -> Seq<u8>
    decreases args.len() - i,
{
    if i < 0 || i >= args.len() {
        acc
    } else if i == 0 {
        message_from(args, i + 1, acc + bytes_of(json_text(args[i])))
    } else {
        message_from(args, i + 1, acc + seq![0x20u8] + bytes_of(json_text(args[i])))
    }
}

impl LogHelper {
    /// The level of the message of a call.
    pub fn level(ctx: &Context) -> (r: Level)
        ensures
            r == level_of(ctx@),
    {
        match entry(&ctx.hash, str_bytes("level")) {
            Some(Json::String(name)) => {
                let name = str_bytes(name.as_str());
                if bytes_eq(name, str_bytes("error")) {
                    Level::Error
                } else if bytes_eq(name, str_bytes("warn")) {
                    Level::Warn
                } else if bytes_eq(name, str_bytes("debug")) {
                    Level::Debug
                } else if bytes_eq(name, str_bytes("trace")) {
                    Level::Trace
                } else {
                    Level::Info
                }
            },
            _ => Level::Info,
        }
    }

    /// The message of a call.
    pub fn message(ctx: &Context) -> (r: Vec<u8>)
        ensures
            r@ == message_from(ctx@.arguments, 0, Seq::empty()),
    {
        let mut out: Vec<u8> = Vec::new();
        let args = &ctx.arguments;
        let mut i: usize = 0;
        proof {
            lemma_views(args@);
        }
        while i < args.len()
            invariant
                i <= args.len(),
                views(args@).len() == args.len(),
                message_from(views(args@), 0, Seq::empty()) == message_from(
                    views(args@),
                    i as int,
                    out@,
                ),
            decreases args.len() - i,
        {
            proof {
                reveal_with_fuel(message_from, 2);
                lemma_views(args@);
            }
            let ghost before = out@;
            if i > 0 {
                out.push(0x20);
            }
            let text = args[i].to_json();
            append(&mut out, str_bytes(text.as_str()));
            proof {
                if i > 0 {
                    assert(out@ =~= before + seq![0x20u8] + bytes_of(text@));
                } else {
                    assert(out@ =~= before + bytes_of(text@));
                }
            }
            i += 1;
        }
        proof {
            reveal_with_fuel(message_from, 2);
        }
        out
    }
}

} // verus!
