//! Requests to a broadcasting node and the replies to them.

use vstd::prelude::*;
use vstd::string::StringExecFns;
use vstd::utf8::encode_utf8;
use crate::cli::{
    argument_error, argument_message, error_reply, help_reply, text_views, unknown_method,
    unknown_method_message, ResponseView,
};
use crate::encoding::{hex_bytes, hex_decode, is_hex};
use crate::hash::DIGEST_LEN;
use crate::tbpub::sending::{
    did_output_script, hash_output_script, output_script_of, FLAG_DID_HEX, FLAG_HASH_HEX,
};
use crate::text::{is_text, natural_value, parse_natural};

pub use crate::cli::JsonResponse;

verus! {

/// The help text of every method.
pub const HELP_MESSAGE: &'static str = "Help Message";

/// What a text must be to serve as an argument.
#[derive(Debug, Clone, Copy, PartialEq, Eq, Structural)]
pub enum ArgumentType {
    /// Any text.
    String,
    /// A decimal number.
    Number,
    /// `true` or `false`.
    Bool,
}

/// An argument that passed its checks.
#[derive(Debug, PartialEq, Eq)]
pub enum ArgValue {
    /// A text.
    Text(String),
    /// A number.
    Number(u64),
    /// A truth value.
    Bool(bool),
}

/// The mathematical value of an `ArgValue`.
pub enum ArgValueView {
    Text(Seq<char>),
    Number(u64),
    Bool(bool),
}

impl View for ArgValue {
    type V = ArgValueView;

    open spec fn view(&self) -> ArgValueView {
        match self {
            ArgValue::Text(text) => ArgValueView::Text(text@),
            ArgValue::Number(number) => ArgValueView::Number(*number),
            ArgValue::Bool(truth) => ArgValueView::Bool(*truth),
        }
    }
}

/// The methods of a broadcasting node.
#[derive(Debug, Clone, Copy, PartialEq, Eq, Structural)]
pub enum RequestMethod {
    BroadcastDID,
    BroadcastHash,
    GetInfo,
    Help,
}

/// The method that `name` names.
pub open spec fn method_named(name: Seq<char>) -> Option<RequestMethod> {
    if name == "broadcastdid"@ {
        Some(RequestMethod::BroadcastDID)
    } else if name == "broadcasthash"@ {
        Some(RequestMethod::BroadcastHash)
    } else if name == "getinfo"@ {
        Some(RequestMethod::GetInfo)
    } else if name == "help"@ || name == "?"@ {
        Some(RequestMethod::Help)
    } else {
        None
    }
}

/// The name and the type of each argument of `method`, in order.
pub open spec fn argument_specs(method: RequestMethod) -> Seq<(Seq<char>, ArgumentType)> {
    match method {
        RequestMethod::BroadcastDID => seq![
            ("did"@, ArgumentType::String),
            ("price"@, ArgumentType::Number),
            ("check_mempool"@, ArgumentType::Bool),
        ],
        RequestMethod::BroadcastHash => seq![
            ("hash"@, ArgumentType::String),
            ("price"@, ArgumentType::Number),
            ("check_mempool"@, ArgumentType::Bool),
        ],
        RequestMethod::GetInfo => seq![],
        RequestMethod::Help => seq![("method"@, ArgumentType::String)],
    }
}

/// The views of the names and types of a list of arguments.
pub open spec fn spec_views(specs: Seq<(&'static str, ArgumentType)>) -> Seq<
    (Seq<char>, ArgumentType),
> {
    Seq::new(specs.len(), |i: int| (specs[i].0@, specs[i].1))
}

impl RequestMethod {
    /// The method that `method` names, if it names one.
    pub fn from_string(method: &str) -> (found: Option<RequestMethod>)
        ensures
            found == method_named(method@),
    {
        if is_text(method, "broadcastdid") {
            Some(RequestMethod::BroadcastDID)
        } else if is_text(method, "broadcasthash") {
            Some(RequestMethod::BroadcastHash)
        } else if is_text(method, "getinfo") {
            Some(RequestMethod::GetInfo)
        } else if is_text(method, "help") || is_text(method, "?") {
            Some(RequestMethod::Help)
        } else {
            None
        }
    }

    /// The name and the type of each argument of this method, in order.
    pub fn argument_types(&self) -> (specs: Vec<(&'static str, ArgumentType)>)
        ensures
            spec_views(specs@) == argument_specs(*self),
    {
        let mut specs: Vec<(&'static str, ArgumentType)> = Vec::new();
        match self {
            RequestMethod::BroadcastDID => {
                specs.push(("did", ArgumentType::String));
                specs.push(("price", ArgumentType::Number));
                specs.push(("check_mempool", ArgumentType::Bool));
            },
            RequestMethod::BroadcastHash => {
                specs.push(("hash", ArgumentType::String));
                specs.push(("price", ArgumentType::Number));
                specs.push(("check_mempool", ArgumentType::Bool));
            },
            RequestMethod::GetInfo => {},
            RequestMethod::Help => {
                specs.push(("method", ArgumentType::String));
            },
        }
        assert(spec_views(specs@) =~= argument_specs(*self));
        specs
    }

    /// The reply that explains this method.
    pub fn help(&self) -> (reply: JsonResponse)
        ensures
            reply@ == help_reply(HELP_MESSAGE@),
    {
        JsonResponse::help(String::from_str(HELP_MESSAGE))
    }
}

/// The value of the argument `name` of type `kind` that `text` gives, or the
/// text that reports why it gives none.
pub open spec fn checked_argument(name: Seq<char>, kind: ArgumentType, text: Seq<char>) -> Result<
    ArgValueView,
    Seq<char>,
> {
    match kind {
        ArgumentType::String => Ok(ArgValueView::Text(text)),
        ArgumentType::Number => match natural_value(text) {
            Some(number) => Ok(ArgValueView::Number(number)),
            None => Err(argument_message(name, "Numeric"@)),
        },
        ArgumentType::Bool => if text == "true"@ {
            Ok(ArgValueView::Bool(true))
        } else if text == "false"@ {
            Ok(ArgValueView::Bool(false))
        } else {
            Err(argument_message(name, "a Boolean"@))
        },
    }
}

/// Checks the text of one argument against its type.
pub fn check_argument(name: &'static str, kind: ArgumentType, text: &String) -> (checked: Result<
    ArgValue,
    JsonResponse,
>)
    ensures
        match checked_argument(name@, kind, text@) {
            Ok(value) => checked matches Ok(made) && made@ == value,
            Err(message) => checked matches Err(reply) && reply@ == error_reply(message),
        },
{
    match kind {
        ArgumentType::String => Ok(ArgValue::Text(text.clone())),
        ArgumentType::Number => match parse_natural(text.as_str()) {
            Some(number) => Ok(ArgValue::Number(number)),
            None => Err(argument_error(name, "Numeric")),
        },
        ArgumentType::Bool => {
            if is_text(text.as_str(), "true") {
                Ok(ArgValue::Bool(true))
            } else if is_text(text.as_str(), "false") {
                Ok(ArgValue::Bool(false))
            } else {
                Err(argument_error(name, "a Boolean"))
            }
        },
    }
}

/// The values that the first `count` texts of `args` give for the arguments
/// `specs`, each under its name, or the text that reports the first of them
/// that gives none.
pub open spec fn checked_arguments(
    specs: Seq<(Seq<char>, ArgumentType)>,
    args: Seq<Seq<char>>,
    count: int,
) -> Result<Seq<(Seq<char>, ArgValueView)>, Seq<char>>
    decreases count,
{
    if count <= 0 {
        Ok(Seq::empty())
    } else {
        match checked_arguments(specs, args, count - 1) {
            Err(message) => Err(message),
            Ok(front) => match checked_argument(
                specs[count - 1].0,
                specs[count - 1].1,
                args[count - 1],
            ) {
                Err(message) => Err(message),
                Ok(value) => Ok(front.push((specs[count - 1].0, value))),
            },
        }
    }
}

/// The method and the named arguments of a request, or the reply to send in
/// their place: an unknown method is reported, a wrong number of arguments is
/// answered with the help of the method, and the first argument that fails
/// its check is reported.
pub open spec fn verified_request(method: Seq<char>, args: Seq<Seq<char>>) -> Result<
    (RequestMethod, Seq<(Seq<char>, ArgValueView)>),
    ResponseView,
> {
    match method_named(method) {
        None => Err(error_reply(unknown_method_message(method))),
        Some(found) => {
            let specs = argument_specs(found);
            if args.len() != specs.len() {
                Err(help_reply(HELP_MESSAGE@))
            } else {
                match checked_arguments(specs, args, specs.len() as int) {
                    Err(message) => Err(error_reply(message)),
                    Ok(values) => Ok((found, values)),
                }
            }
        },
    }
}

/// The views of a list of named arguments.
pub open spec fn value_views(values: Seq<(&'static str, ArgValue)>) -> Seq<
    (Seq<char>, ArgValueView),
> {
    Seq::new(values.len(), |i: int| (values[i].0@, values[i].1@))
}

/// Once an argument is rejected, the rejection stands for every longer list.
pub proof fn lemma_rejection_stays(
    specs: Seq<(Seq<char>, ArgumentType)>,
    args: Seq<Seq<char>>,
    count: int,
    upto: int,
)
    requires
        count <= upto,
        checked_arguments(specs, args, count) is Err,
    ensures
        checked_arguments(specs, args, upto) == checked_arguments(specs, args, count),
    decreases upto - count,
{
    if count < upto {
        lemma_rejection_stays(specs, args, count, upto - 1);
    }
}

/// Arguments that pass their checks come out one for each type, under its
/// name and of the kind of value that the type gives.
pub proof fn lemma_checked_arguments_shape(
    specs: Seq<(Seq<char>, ArgumentType)>,
    args: Seq<Seq<char>>,
    count: int,
)
    requires
        0 <= count <= specs.len(),
    ensures
        checked_arguments(specs, args, count) matches Ok(values) ==> {
            &&& values.len() == count
            &&& forall|i: int|
                0 <= i < count ==> {
                    &&& (#[trigger] values[i]).0 == specs[i].0
                    &&& checked_argument(specs[i].0, specs[i].1, args[i]) == Ok::<
                        ArgValueView,
                        Seq<char>,
                    >(values[i].1)
                }
        },
    decreases count,
{
    if count > 0 {
        lemma_checked_arguments_shape(specs, args, count - 1);
    }
}

/// The text that reports that the hash to broadcast is not 20 bytes long.
pub const HASH_LENGTH_MESSAGE: &'static str = "Argument(hash) must be 20 bytes long";

/// The reply to a request to broadcast the text `hash`, where the text is
/// no hash: it must be hexadecimal and stand for 20 bytes.
pub open spec fn hash_refusal(hash: Seq<char>) -> Option<ResponseView> {
    if !is_hex(encode_utf8(hash)) {
        Some(error_reply(argument_message("hash"@, "a valid Hex String"@)))
    } else if hex_bytes(encode_utf8(hash)).len() != DIGEST_LEN {
        Some(error_reply(HASH_LENGTH_MESSAGE@))
    } else {
        None
    }
}

/// The text that reports a tagged transaction that waits in the mempool.
pub open spec fn mempool_message(txid: Seq<char>) -> Seq<char> {
    "TBPUB Transaction found in mempool with txid("@ + txid + ")"@
}

/// The reply to a request to broadcast while the tagged transaction `txid`
/// waits in the mempool.
pub fn mempool_conflict_reply(txid: &str) -> (reply: JsonResponse)
    ensures
        reply@ == error_reply(mempool_message(txid@)),
{
    let mut message = String::from_str("TBPUB Transaction found in mempool with txid(");
    message.append(txid);
    message.append(")");
    JsonResponse::error(message)
}

/// A request: the name of a method and the texts of its arguments.
#[derive(Debug, PartialEq, Eq)]
pub struct JsonRequest {
    /// Name of the method.
    pub method: String,
    /// The arguments, in order.
    pub args: Vec<String>,
}

/// What a node is to do for a request that passed its checks.
#[derive(Debug, PartialEq, Eq)]
pub enum Command {
    /// Broadcast a transaction whose output carries `output_script` and
    /// destroys `price`, unless a tagged transaction waits in the mempool.
    BroadcastHash { output_script: String, price: u64 },
    /// Broadcast a transaction whose output carries `output_script` and
    /// destroys `price`.
    BroadcastDID { output_script: String, price: u64 },
    /// Report how far the chain is scanned.
    GetInfo,
}

/// The outcome of handling a request without the node's services.
#[derive(Debug, PartialEq, Eq)]
pub enum Handled {
    /// The reply is known.
    Reply(JsonResponse),
    /// The node has to act, and replies with the result.
    Run(Command),
}

impl JsonRequest {
    /// Checks the request: the method that it names and its arguments, each
    /// under its name, or the reply to send where the check fails.
    pub fn verify_request(&self) -> (verified: Result<
        (RequestMethod, Vec<(&'static str, ArgValue)>),
        JsonResponse,
    >)
        ensures
            match verified_request(self.method@, text_views(self.args@)) {
                Ok((method, values)) => verified matches Ok((found, made)) && found == method
                    && value_views(made@) == values,
                Err(reply) => verified matches Err(sent) && sent@ == reply,
            },
    {
        let method = match RequestMethod::from_string(self.method.as_str()) {
            Some(method) => method,
            None => {
                return Err(unknown_method(self.method.as_str()));
            },
        };
        let specs = method.argument_types();
        if self.args.len() != specs.len() {
            return Err(method.help());
        }
        let ghost wanted = argument_specs(method);
        let ghost texts = text_views(self.args@);
        let mut values: Vec<(&'static str, ArgValue)> = Vec::new();
        let mut i: usize = 0;
        proof {
            assert(value_views(values@) =~= Seq::empty());
        }
        while i < specs.len()
            invariant
                i <= specs@.len(),
                specs@.len() == self.args@.len(),
                method_named(self.method@) == Some(method),
                wanted == spec_views(specs@),
                wanted == argument_specs(method),
                texts == text_views(self.args@),
                checked_arguments(wanted, texts, i as int) == Ok::<
                    Seq<(Seq<char>, ArgValueView)>,
                    Seq<char>,
                >(value_views(values@)),
            decreases specs@.len() - i,
        {
            let name: &'static str = specs[i].0;
            let kind: ArgumentType = specs[i].1;
            proof {
                assert(wanted[i as int] == (name@, kind));
                assert(texts[i as int] == self.args@[i as int]@);
            }
            match check_argument(name, kind, &self.args[i]) {
                Err(reply) => {
                    proof {
                        lemma_rejection_stays(wanted, texts, i + 1, wanted.len() as int);
                    }
                    return Err(reply);
                },
                Ok(value) => {
                    let ghost before = values@;
                    values.push((name, value));
                    proof {
                        assert(value_views(values@) =~= value_views(before).push(
                            (name@, value@),
                        ));
                    }
                },
            }
            i += 1;
        }
        Ok((method, values))
    }

    /// Handles the request as far as that can be done without the node's
    /// services: a request that fails its check, a request to broadcast a
    /// text that is no hash and a request for help are answered, and every
    /// other request becomes a command.
    pub fn handel_request(&self) -> (handled: Handled)
        ensures
            match verified_request(self.method@, text_views(self.args@)) {
                Err(reply) => handled matches Handled::Reply(sent) && sent@ == reply,
                Ok((method, values)) => match method {
                    RequestMethod::BroadcastHash => {
                        &&& values.len() == 3
                        &&& values[0].1 matches ArgValueView::Text(hash)
                        &&& values[1].1 matches ArgValueView::Number(price)
                        &&& match hash_refusal(hash) {
                            Some(reply) => handled matches Handled::Reply(sent) && sent@ == reply,
                            None => {
                                &&& handled matches Handled::Run(
                                    Command::BroadcastHash { output_script, price: paid },
                                )
                                &&& output_script@ == output_script_of(FLAG_HASH_HEX@, hash)
                                &&& paid == price
                            },
                        }
                    },
                    RequestMethod::BroadcastDID => {
                        &&& values.len() == 3
                        &&& values[0].1 matches ArgValueView::Text(did)
                        &&& values[1].1 matches ArgValueView::Number(price)
                        &&& handled matches Handled::Run(
                            Command::BroadcastDID { output_script, price: paid },
                        )
                        &&& output_script@ == output_script_of(FLAG_DID_HEX@, did)
                        &&& paid == price
                    },
                    RequestMethod::GetInfo => handled == Handled::Run(Command::GetInfo),
                    RequestMethod::Help => {
                        &&& handled matches Handled::Reply(sent)
                        &&& values.len() == 1
                        &&& values[0].1 matches ArgValueView::Text(asked)
                        &&& sent@ == match method_named(asked) {
                            Some(found) => help_reply(HELP_MESSAGE@),
                            None => error_reply(unknown_method_message(asked)),
                        }
                    },
                },
            },
    {
        let (method, mut values) = match self.verify_request() {
            Ok(verified) => verified,
            Err(reply) => {
                return Handled::Reply(reply);
            },
        };
        let ghost views = value_views(values@);
        let ghost specs = argument_specs(method);
        let ghost texts = text_views(self.args@);
        proof {
            lemma_checked_arguments_shape(specs, texts, specs.len() as int);
            assert(views.len() == specs.len());
            if specs.len() > 0 {
                assert(views[0] == (values@[0].0@, values@[0].1@));
                assert(checked_argument(specs[0].0, specs[0].1, texts[0]) == Ok::<
                    ArgValueView,
                    Seq<char>,
                >(views[0].1));
            }
            if specs.len() > 1 {
                assert(views[1] == (values@[1].0@, values@[1].1@));
                assert(checked_argument(specs[1].0, specs[1].1, texts[1]) == Ok::<
                    ArgValueView,
                    Seq<char>,
                >(views[1].1));
            }
            if specs.len() > 2 {
                assert(views[2] == (values@[2].0@, values@[2].1@));
                assert(checked_argument(specs[2].0, specs[2].1, texts[2]) == Ok::<
                    ArgValueView,
                    Seq<char>,
                >(views[2].1));
            }
        }
        match method {
            RequestMethod::GetInfo => Handled::Run(Command::GetInfo),
            RequestMethod::BroadcastHash => {
                let _ = values.pop();
                let second = values.pop();
                let first = values.pop();
                match (first, second) {
                    (Some((_, ArgValue::Text(hash))), Some((_, ArgValue::Number(price)))) => {
                        match hex_decode(hash.as_str().as_bytes()) {
                            Err(_) => Handled::Reply(argument_error("hash", "a valid Hex String")),
                            Ok(bytes) => {
                                if bytes.len() != DIGEST_LEN {
                                    return Handled::Reply(
                                        JsonResponse::error(String::from_str(HASH_LENGTH_MESSAGE)),
                                    );
                                }
                                Handled::Run(
                                    Command::BroadcastHash {
                                        output_script: hash_output_script(hash.as_str()),
                                        price,
                                    },
                                )
                            },
                        }
                    },
                    _ => {
                        assert(false);
                        Handled::Run(Command::GetInfo)
                    },
                }
            },
            RequestMethod::BroadcastDID => {
                let _ = values.pop();
                let second = values.pop();
                let first = values.pop();
                match (first, second) {
                    (Some((_, ArgValue::Text(did))), Some((_, ArgValue::Number(price)))) => {
                        Handled::Run(
                            Command::BroadcastDID {
                                output_script: did_output_script(did.as_str()),
                                price,
                            },
                        )
                    },
                    _ => {
                        assert(false);
                        Handled::Run(Command::GetInfo)
                    },
                }
            },
            RequestMethod::Help => {
                match values.pop() {
                    Some((_, ArgValue::Text(asked))) => {
                        match RequestMethod::from_string(asked.as_str()) {
                            Some(found) => Handled::Reply(found.help()),
                            None => Handled::Reply(unknown_method(asked.as_str())),
                        }
                    },
                    _ => {
                        assert(false);
                        Handled::Run(Command::GetInfo)
                    },
                }
            },
        }
    }
}

} // verus!
