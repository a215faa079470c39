//! Requests to a publishing node and the replies to them.

use vstd::prelude::*;
use vstd::string::StringExecFns;
use vstd::utf8::encode_utf8;
use crate::config::Config;
use crate::encoding::{
    decimal_string, hex_bytes, hex_decode, i64_to_string, is_hex, u64_to_string,
};
use crate::structs::UnpublishedPage;
use crate::text::{
    all_alphanumeric, decimal_value, is_alphanumeric_text, is_text, parse_decimal,
};

verus! {

/// Status of a reply that reports a failure.
pub const STATUS_ERROR: u8 = 0;

/// Status of a reply that carries a result.
pub const STATUS_SUCCESS: u8 = 1;

/// Status of a reply that explains a method.
pub const STATUS_HELP: u8 = 2;

/// Help for `addpage`.
pub const HELP_ADD_PAGE: &'static str = "
addpage ( name n_value data )

Adds a page to the list of unpublished pages.

Arguments:
1. name              (string) The name of the page
2. n_value           (numeric) The number of satoshis to publish this page under
3. data              (string) A hex string containing upto 991 bytes of data as the content of the page

Result:
{                             (json object)
  \"name\" : \"str\",             (alphanumeric string) The name of the page
  \"n_value\" : n,              (numeric) The number of satoshis to publish this page under
  \"data\" : \"hex\",             (string) The data of the page
}

Examples:
> lipcli addpage mynewpage 600 ae84532332efabfc";

/// Help for `listunpublished`.
pub const HELP_LIST_UNPUBLISHED: &'static str = "
listunpublished

Returns an array of all unpublished pages

Result:
[                               (json array)
  {                             (json object)
    \"name\" : \"str\",             (alphanumeric string) The name of the page
    \"n_value\" : n,              (numeric) The number of satoshis to publish this page under
    \"data\" : \"hex\",             (string) The data of the page
  }
]

Examples:
> lipcli listunpublished";

/// Help for `listpages`.
pub const HELP_LIST_PAGES: &'static str = "
listpages

Returns an array of all pages that are 
valid and stored in the Library

Result:
{                             (json object)
  \"block_height\" : n,         (numeric) The block height the page was included in
  \"n_value\" : n,              (numeric) The number of satoshis to publish this page under
  \"data\" : \"hex\",             (string) The data of the page
}

Examples:
> lipcli listpages";

/// Help for `getpage`.
pub const HELP_GET_PAGE: &'static str = "
getpage ( name )

Gets a page from the list of unpublished pages 
by name if it exists

Arguments:
1. name              (string) The name of the page

Result:
{                             (json object)
  \"name\" : \"str\",             (alphanumeric string) The name of the page
  \"n_value\" : n,              (numeric) The number of satoshis to publish this page under
  \"data\" : \"hex\",             (string) The data of the page
}

Examples:
> lipcli getpage mypage";

/// Help for `removepage`.
pub const HELP_REMOVE_PAGE: &'static str = "
removepage ( name )

Removes a page from the list of unpublished pages

Arguments:
1. name              (string) The name of the page

Result:
n                               (bool) whether or not the page was removed

Examples:
> lipcli removepage myoldpage";

/// Help for `publish`.
pub const HELP_PUBLISH: &'static str = "
publish ( publish_fee )

Publishes all unpublished pages

Arguments:
2. publish_fee           (numeric) The fee to publish the all the unpublished pages with, If 0 it will choose the minimum amount to successfully publish the book.

Result:
hex                             (string) The Txid of the transaction that broadcast the book of all unpublished pages

Examples:
> lipcli publish 100";

/// Help for `help`: the list of methods.
pub const HELP_COMMANDS: &'static str = "
== Commands  ==
addpage \"name\" n_value \"data\"
getpage \"name\"
removepage \"name\"
listunpublished
listpages
publish publish_fee";

/// A reply to a request.
#[derive(Debug, PartialEq, Eq)]
pub struct JsonResponse {
    /// `STATUS_ERROR`, `STATUS_SUCCESS` or `STATUS_HELP`.
    pub status: u8,
    /// The result, or the text of the failure or of the help.
    pub message: String,
}

/// The mathematical value of a `JsonResponse`.
pub struct ResponseView {
    pub status: u8,
    pub message: Seq<char>,
}

impl View for JsonResponse {
    type V = ResponseView;

    open spec fn view(&self) -> ResponseView {
        ResponseView { status: self.status, message: self.message@ }
    }
}

/// The reply that reports the failure `message`.
pub open spec fn error_reply(message: Seq<char>) -> ResponseView {
    ResponseView { status: STATUS_ERROR, message }
}

/// The reply that explains with `message`.
pub open spec fn help_reply(message: Seq<char>) -> ResponseView {
    ResponseView { status: STATUS_HELP, message }
}

impl JsonResponse {
    /// A reply that reports a failure.
    pub fn error(message: String) -> (reply: JsonResponse)
        ensures
            reply.status == STATUS_ERROR,
            reply.message == message,
    {
        JsonResponse { status: STATUS_ERROR, message }
    }

    /// A reply that carries a result.
    pub fn success(message: String) -> (reply: JsonResponse)
        ensures
            reply.status == STATUS_SUCCESS,
            reply.message == message,
    {
        JsonResponse { status: STATUS_SUCCESS, message }
    }

    /// A reply that explains a method.
    pub fn help(message: String) -> (reply: JsonResponse)
        ensures
            reply.status == STATUS_HELP,
            reply.message == message,
    {
        JsonResponse { status: STATUS_HELP, message }
    }
}

/// What a text must be to serve as an argument.
#[derive(Debug, Clone, Copy, PartialEq, Eq, Structural)]
pub enum ArgumentType {
    /// Letters and numbers only.
    StringAlphanumeric,
    /// Hexadecimal text of fewer than the given number of bytes.
    StringHex(usize),
    /// A decimal number, not under the given least value if there is one.
    Number(Option<i64>),
}

/// An argument that passed its checks.
#[derive(Debug, PartialEq, Eq)]
pub enum ArgValue {
    /// A text of letters and numbers.
    Text(String),
    /// The bytes that a hexadecimal text stands for.
    Bytes(Vec<u8>),
    /// A number.
    Number(i64),
}

/// The mathematical value of an `ArgValue`.
pub enum ArgValueView {
    Text(Seq<char>),
    Bytes(Seq<u8>),
    Number(i64),
}

impl View for ArgValue {
    type V = ArgValueView;

    open spec fn view(&self) -> ArgValueView {
        match self {
            ArgValue::Text(text) => ArgValueView::Text(text@),
            ArgValue::Bytes(bytes) => ArgValueView::Bytes(bytes@),
            ArgValue::Number(number) => ArgValueView::Number(*number),
        }
    }
}

/// The methods of a publishing node.
#[derive(Debug, Clone, Copy, PartialEq, Eq, Structural)]
pub enum RequestMethod {
    AddPage,
    ListUnpublished,
    ListPages,
    GetPage,
    RemovePage,
    Publish,
    Help,
}

/// The method that `name` names.
pub open spec fn method_named(name: Seq<char>) -> Option<RequestMethod> {
    if name == "addpage"@ {
        Some(RequestMethod::AddPage)
    } else if name == "listunpublished"@ {
        Some(RequestMethod::ListUnpublished)
    } else if name == "listpages"@ {
        Some(RequestMethod::ListPages)
    } else if name == "getpage"@ {
        Some(RequestMethod::GetPage)
    } else if name == "removepage"@ {
        Some(RequestMethod::RemovePage)
    } else if name == "publish"@ {
        Some(RequestMethod::Publish)
    } else if name == "help"@ || name == "?"@ {
        Some(RequestMethod::Help)
    } else {
        None
    }
}

/// The name and the type of each argument of `method`, in order.
pub open spec fn argument_specs(method: RequestMethod, min_page_n_value: i64) -> Seq<
    (Seq<char>, ArgumentType),
> {
    match method {
        RequestMethod::AddPage => seq![
            ("name"@, ArgumentType::StringAlphanumeric),
            ("n_value"@, ArgumentType::Number(Some(min_page_n_value))),
            ("data"@, ArgumentType::StringHex(992)),
        ],
        RequestMethod::ListUnpublished => seq![],
        RequestMethod::ListPages => seq![],
        RequestMethod::GetPage => seq![("name"@, ArgumentType::StringAlphanumeric)],
        RequestMethod::RemovePage => seq![("name"@, ArgumentType::StringAlphanumeric)],
        RequestMethod::Publish => seq![("publisher_fee"@, ArgumentType::Number(None))],
        RequestMethod::Help => seq![("method"@, ArgumentType::StringAlphanumeric)],
    }
}

/// The help text of `method`.
pub open spec fn help_text(method: RequestMethod) -> Seq<char> {
    match method {
        RequestMethod::AddPage => HELP_ADD_PAGE@,
        RequestMethod::ListUnpublished => HELP_LIST_UNPUBLISHED@,
        RequestMethod::ListPages => HELP_LIST_PAGES@,
        RequestMethod::GetPage => HELP_GET_PAGE@,
        RequestMethod::RemovePage => HELP_REMOVE_PAGE@,
        RequestMethod::Publish => HELP_PUBLISH@,
        RequestMethod::Help => HELP_COMMANDS@,
    }
}

/// The views of the names and types of a list of arguments.
pub open spec fn spec_views(specs: Seq<(&'static str, ArgumentType)>) -> Seq<
    (Seq<char>, ArgumentType),
> {
    Seq::new(specs.len(), |i: int| (specs[i].0@, specs[i].1))
}

impl RequestMethod {
    /// The method that `method` names, if it names one.
    pub fn from_string(method: &str) -> (found: Option<RequestMethod>)
        ensures
            found == method_named(method@),
    {
        if is_text(method, "addpage") {
            Some(RequestMethod::AddPage)
        } else if is_text(method, "listunpublished") {
            Some(RequestMethod::ListUnpublished)
        } else if is_text(method, "listpages") {
            Some(RequestMethod::ListPages)
        } else if is_text(method, "getpage") {
            Some(RequestMethod::GetPage)
        } else if is_text(method, "removepage") {
            Some(RequestMethod::RemovePage)
        } else if is_text(method, "publish") {
            Some(RequestMethod::Publish)
        } else if is_text(method, "help") || is_text(method, "?") {
            Some(RequestMethod::Help)
        } else {
            None
        }
    }

    /// The name and the type of each argument of this method, in order.
    pub fn argument_types(&self, config: &Config) -> (specs: Vec<(&'static str, ArgumentType)>)
        ensures
            spec_views(specs@) == argument_specs(*self, config.min_page_n_value),
    {
        let mut specs: Vec<(&'static str, ArgumentType)> = Vec::new();
        match self {
            RequestMethod::AddPage => {
                specs.push(("name", ArgumentType::StringAlphanumeric));
                specs.push(("n_value", ArgumentType::Number(Some(config.min_page_n_value))));
                specs.push(("data", ArgumentType::StringHex(992)));
            },
            RequestMethod::ListUnpublished => {},
            RequestMethod::ListPages => {},
            RequestMethod::GetPage => {
                specs.push(("name", ArgumentType::StringAlphanumeric));
            },
            RequestMethod::RemovePage => {
                specs.push(("name", ArgumentType::StringAlphanumeric));
            },
            RequestMethod::Publish => {
                specs.push(("publisher_fee", ArgumentType::Number(None)));
            },
            RequestMethod::Help => {
                specs.push(("method", ArgumentType::StringAlphanumeric));
            },
        }
        assert(spec_views(specs@) =~= argument_specs(*self, config.min_page_n_value));
        specs
    }

    /// The reply that explains this method.
    pub fn help(&self) -> (reply: JsonResponse)
        ensures
            reply@ == help_reply(help_text(*self)),
    {
        match self {
            RequestMethod::AddPage => JsonResponse::help(String::from_str(HELP_ADD_PAGE)),
            RequestMethod::ListUnpublished => JsonResponse::help(
                String::from_str(HELP_LIST_UNPUBLISHED),
            ),
            RequestMethod::ListPages => JsonResponse::help(String::from_str(HELP_LIST_PAGES)),
            RequestMethod::GetPage => JsonResponse::help(String::from_str(HELP_GET_PAGE)),
            RequestMethod::RemovePage => JsonResponse::help(String::from_str(HELP_REMOVE_PAGE)),
            RequestMethod::Publish => JsonResponse::help(String::from_str(HELP_PUBLISH)),
            RequestMethod::Help => JsonResponse::help(String::from_str(HELP_COMMANDS)),
        }
    }
}

/// The text that reports that argument `name` is not `what`.
pub open spec fn argument_message(name: Seq<char>, what: Seq<char>) -> Seq<char> {
    "Argument("@ + name + ") is not "@ + what
}

/// The text that reports that argument `name` breaks the bound of its type.
pub open spec fn bound_message(name: Seq<char>, kind: ArgumentType) -> Seq<char> {
    match kind {
        ArgumentType::StringAlphanumeric => Seq::empty(),
        ArgumentType::StringHex(below) => name + " must be less then "@ + decimal_string(
            below as int,
        ) + " bytes"@,
        ArgumentType::Number(Some(least)) => name + " must be at least "@ + decimal_string(
            least as int,
        ),
        ArgumentType::Number(None) => Seq::empty(),
    }
}

/// The value of the argument `name` of type `kind` that `text` gives, or the
/// text that reports why it gives none.
pub open spec fn checked_argument(name: Seq<char>, kind: ArgumentType, text: Seq<char>) -> Result<
    ArgValueView,
    Seq<char>,
> {
    match kind {
        ArgumentType::StringAlphanumeric => if all_alphanumeric(text) {
            Ok(ArgValueView::Text(text))
        } else {
            Err(argument_message(name, "Alphanumeric"@))
        },
        ArgumentType::StringHex(below) => if !is_hex(encode_utf8(text)) {
            Err(argument_message(name, "a valid Hex String"@))
        } else if hex_bytes(encode_utf8(text)).len() >= below {
            Err(bound_message(name, kind))
        } else {
            Ok(ArgValueView::Bytes(hex_bytes(encode_utf8(text))))
        },
        ArgumentType::Number(least) => match decimal_value(text) {
            None => Err(argument_message(name, "Numeric"@)),
            Some(number) => if least matches Some(bound) && number < bound {
                Err(bound_message(name, kind))
            } else {
                Ok(ArgValueView::Number(number))
            },
        },
    }
}

/// Builds the text that reports that argument `name` is not `what`.
pub(crate) fn argument_error(name: &str, what: &str) -> (reply: JsonResponse)
    ensures
        reply@ == error_reply(argument_message(name@, what@)),
{
    let mut message = String::from_str("Argument(");
    message.append(name);
    message.append(") is not ");
    message.append(what);
    JsonResponse::error(message)
}

/// Builds the text that reports that argument `name` breaks the bound of its
/// type.
fn bound_error(name: &str, kind: ArgumentType) -> (reply: JsonResponse)
    ensures
        reply@ == error_reply(bound_message(name@, kind)),
{
    match kind {
        ArgumentType::StringHex(below) => {
            let mut message = String::from_str(name);
            message.append(" must be less then ");
            message.append(u64_to_string(below as u64).as_str());
            message.append(" bytes");
            JsonResponse::error(message)
        },
        ArgumentType::Number(Some(least)) => {
            let mut message = String::from_str(name);
            message.append(" must be at least ");
            message.append(i64_to_string(least).as_str());
            JsonResponse::error(message)
        },
        _ => JsonResponse::error(String::new()),
    }
}

/// Checks the text of one argument against its type.
pub fn check_argument(name: &'static str, kind: ArgumentType, text: &String) -> (checked: Result<
    ArgValue,
    JsonResponse,
>)
    ensures
        match checked_argument(name@, kind, text@) {
            Ok(value) => checked matches Ok(made) && made@ == value,
            Err(message) => checked matches Err(reply) && reply@ == error_reply(message),
        },
{
    match kind {
        ArgumentType::StringAlphanumeric => {
            if !is_alphanumeric_text(text.as_str()) {
                return Err(argument_error(name, "Alphanumeric"));
            }
            Ok(ArgValue::Text(text.clone()))
        },
        ArgumentType::StringHex(below) => {
            match hex_decode(text.as_str().as_bytes()) {
                Err(_) => Err(argument_error(name, "a valid Hex String")),
                Ok(bytes) => {
                    if bytes.len() >= below {
                        return Err(bound_error(name, kind));
                    }
                    Ok(ArgValue::Bytes(bytes))
                },
            }
        },
        ArgumentType::Number(least) => {
            match parse_decimal(text.as_str()) {
                None => Err(argument_error(name, "Numeric")),
                Some(number) => {
                    match least {
                        Some(bound) => {
                            if number < bound {
                                return Err(bound_error(name, kind));
                            }
                        },
                        None => {},
                    }
                    Ok(ArgValue::Number(number))
                },
            }
        },
    }
}

/// The values that the first `count` texts of `args` give for the arguments
/// `specs`, each under its name, or the text that reports the first of them
/// that gives none.
pub open spec fn checked_arguments(
    specs: Seq<(Seq<char>, ArgumentType)>,
    args: Seq<Seq<char>>,
    count: int,
) -> Result<Seq<(Seq<char>, ArgValueView)>, Seq<char>>
    decreases count,
{
    if count <= 0 {
        Ok(Seq::empty())
    } else {
        match checked_arguments(specs, args, count - 1) {
            Err(message) => Err(message),
            Ok(front) => match checked_argument(
                specs[count - 1].0,
                specs[count - 1].1,
                args[count - 1],
            ) {
                Err(message) => Err(message),
                Ok(value) => Ok(front.push((specs[count - 1].0, value))),
            },
        }
    }
}

/// The text that reports that no method is called `name`.
pub open spec fn unknown_method_message(name: Seq<char>) -> Seq<char> {
    "Unknown Method("@ + name + ")"@
}

/// The method and the named arguments of a request, or the reply to send in
/// their place: an unknown method is reported, a wrong number of arguments is
/// answered with the help of the method, and the first argument that fails
/// its check is reported.
pub open spec fn verified_request(
    method: Seq<char>,
    args: Seq<Seq<char>>,
    min_page_n_value: i64,
) -> Result<(RequestMethod, Seq<(Seq<char>, ArgValueView)>), ResponseView> {
    match method_named(method) {
        None => Err(error_reply(unknown_method_message(method))),
        Some(found) => {
            let specs = argument_specs(found, min_page_n_value);
            if args.len() != specs.len() {
                Err(help_reply(help_text(found)))
            } else {
                match checked_arguments(specs, args, specs.len() as int) {
                    Err(message) => Err(error_reply(message)),
                    Ok(values) => Ok((found, values)),
                }
            }
        },
    }
}

/// The views of a list of texts.
pub open spec fn text_views(texts: Seq<String>) -> Seq<Seq<char>> {
    Seq::new(texts.len(), |i: int| texts[i]@)
}

/// The views of a list of named arguments.
pub open spec fn value_views(values: Seq<(&'static str, ArgValue)>) -> Seq<
    (Seq<char>, ArgValueView),
> {
    Seq::new(values.len(), |i: int| (values[i].0@, values[i].1@))
}

/// Builds the reply that reports that no method is called `name`.
pub(crate) fn unknown_method(name: &str) -> (reply: JsonResponse)
    ensures
        reply@ == error_reply(unknown_method_message(name@)),
{
    let mut message = String::from_str("Unknown Method(");
    message.append(name);
    message.append(")");
    JsonResponse::error(message)
}

/// A request: the name of a method and the texts of its arguments.
#[derive(Debug, PartialEq, Eq)]
pub struct JsonRequest {
    /// Name of the method.
    pub method: String,
    /// The arguments, in order.
    pub args: Vec<String>,
}

/// What a node is to do for a request that passed its checks.
#[derive(Debug, PartialEq, Eq)]
pub enum Command {
    /// Add the page to the unpublished pages, unless one has its name.
    AddPage { page: UnpublishedPage },
    /// List the unpublished pages.
    ListUnpublished,
    /// List the pages of the library.
    ListPages,
    /// Show the unpublished page of this name.
    GetPage { name: String },
    /// Remove the unpublished page of this name.
    RemovePage { name: String },
    /// Publish the unpublished pages for this fee, in base units; for the
    /// sum of their weights where the fee is not positive.
    Publish { publisher_fee: i64 },
}

/// The outcome of handling a request without the node's stores.
#[derive(Debug, PartialEq, Eq)]
pub enum Handled {
    /// The reply is known.
    Reply(JsonResponse),
    /// The node has to act, and replies with the result.
    Run(Command),
}

impl JsonRequest {
    /// Checks the request: the method that it names and its arguments, each
    /// under its name, or the reply to send where the check fails.
    pub fn verify_request(&self, config: &Config) -> (verified: Result<
        (RequestMethod, Vec<(&'static str, ArgValue)>),
        JsonResponse,
    >)
        ensures
            match verified_request(self.method@, text_views(self.args@), config.min_page_n_value) {
                Ok((method, values)) => verified matches Ok((found, made)) && found == method
                    && value_views(made@) == values,
                Err(reply) => verified matches Err(sent) && sent@ == reply,
            },
    {
        let method = match RequestMethod::from_string(self.method.as_str()) {
            Some(method) => method,
            None => {
                return Err(unknown_method(self.method.as_str()));
            },
        };
        let specs = method.argument_types(config);
        if self.args.len() != specs.len() {
            return Err(method.help());
        }
        let ghost wanted = argument_specs(method, config.min_page_n_value);
        let ghost texts = text_views(self.args@);
        let mut values: Vec<(&'static str, ArgValue)> = Vec::new();
        let mut i: usize = 0;
        proof {
            assert(value_views(values@) =~= Seq::empty());
        }
        while i < specs.len()
            invariant
                i <= specs@.len(),
                specs@.len() == self.args@.len(),
                method_named(self.method@) == Some(method),
                wanted == spec_views(specs@),
                wanted == argument_specs(method, config.min_page_n_value),
                texts == text_views(self.args@),
                checked_arguments(wanted, texts, i as int) == Ok::<
                    Seq<(Seq<char>, ArgValueView)>,
                    Seq<char>,
                >(value_views(values@)),
            decreases specs@.len() - i,
        {
            let name: &'static str = specs[i].0;
            let kind: ArgumentType = specs[i].1;
            proof {
                assert(wanted[i as int] == (name@, kind));
                assert(texts[i as int] == self.args@[i as int]@);
            }
            match check_argument(name, kind, &self.args[i]) {
                Err(reply) => {
                    proof {
                        lemma_rejection_stays(wanted, texts, i + 1, wanted.len() as int);
                    }
                    return Err(reply);
                },
                Ok(value) => {
                    let ghost before = values@;
                    values.push((name, value));
                    proof {
                        assert(value_views(values@) =~= value_views(before).push(
                            (name@, value@),
                        ));
                    }
                },
            }
            i += 1;
        }
        Ok((method, values))
    }

    /// Handles the request as far as that can be done without the node's
    /// stores: a request that fails its check and a request for help are
    /// answered, and every other request becomes a command with its
    /// arguments.
    pub fn handel_request(&self, config: &Config) -> (handled: Handled)
        ensures
            match verified_request(self.method@, text_views(self.args@), config.min_page_n_value) {
                Err(reply) => handled matches Handled::Reply(sent) && sent@ == reply,
                Ok((method, values)) => match method {
                    RequestMethod::AddPage => {
                        &&& handled matches Handled::Run(Command::AddPage { page })
                        &&& values == seq![
                            ("name"@, ArgValueView::Text(page.name@)),
                            ("n_value"@, ArgValueView::Number(page.n_value)),
                            ("data"@, ArgValueView::Bytes(page.data@)),
                        ]
                    },
                    RequestMethod::ListUnpublished => handled == Handled::Run(
                        Command::ListUnpublished,
                    ),
                    RequestMethod::ListPages => handled == Handled::Run(Command::ListPages),
                    RequestMethod::GetPage => {
                        &&& handled matches Handled::Run(Command::GetPage { name })
                        &&& values == seq![("name"@, ArgValueView::Text(name@))]
                    },
                    RequestMethod::RemovePage => {
                        &&& handled matches Handled::Run(Command::RemovePage { name })
                        &&& values == seq![("name"@, ArgValueView::Text(name@))]
                    },
                    RequestMethod::Publish => {
                        &&& handled matches Handled::Run(Command::Publish { publisher_fee })
                        &&& values == seq![("publisher_fee"@, ArgValueView::Number(publisher_fee))]
                    },
                    RequestMethod::Help => {
                        &&& handled matches Handled::Reply(sent)
                        &&& values.len() == 1
                        &&& values[0].1 matches ArgValueView::Text(asked)
                        &&& sent@ == match method_named(asked) {
                            Some(found) => help_reply(help_text(found)),
                            None => error_reply(unknown_method_message(asked)),
                        }
                    },
                },
            },
    {
        let (method, mut values) = match self.verify_request(config) {
            Ok(verified) => verified,
            Err(reply) => {
                return Handled::Reply(reply);
            },
        };
        let ghost views = value_views(values@);
        let ghost specs = argument_specs(method, config.min_page_n_value);
        let ghost texts = text_views(self.args@);
        proof {
            lemma_checked_arguments_shape(specs, texts, specs.len() as int);
            assert(views.len() == specs.len());
            if specs.len() > 0 {
                assert(views[0] == (values@[0].0@, values@[0].1@));
                assert(checked_argument(specs[0].0, specs[0].1, texts[0]) == Ok::<
                    ArgValueView,
                    Seq<char>,
                >(views[0].1));
            }
            if specs.len() > 1 {
                assert(views[1] == (values@[1].0@, values@[1].1@));
                assert(checked_argument(specs[1].0, specs[1].1, texts[1]) == Ok::<
                    ArgValueView,
                    Seq<char>,
                >(views[1].1));
            }
            if specs.len() > 2 {
                assert(views[2] == (values@[2].0@, values@[2].1@));
                assert(checked_argument(specs[2].0, specs[2].1, texts[2]) == Ok::<
                    ArgValueView,
                    Seq<char>,
                >(views[2].1));
            }
        }
        match method {
            RequestMethod::ListUnpublished => Handled::Run(Command::ListUnpublished),
            RequestMethod::ListPages => Handled::Run(Command::ListPages),
            RequestMethod::AddPage => {
                let third = values.pop();
                let second = values.pop();
                let first = values.pop();
                match (first, second, third) {
                    (
                        Some((_, ArgValue::Text(name))),
                        Some((_, ArgValue::Number(n_value))),
                        Some((_, ArgValue::Bytes(data))),
                    ) => {
                        assert(views =~= seq![
                            ("name"@, ArgValueView::Text(name@)),
                            ("n_value"@, ArgValueView::Number(n_value)),
                            ("data"@, ArgValueView::Bytes(data@)),
                        ]);
                        match UnpublishedPage::new(name, n_value, data) {
                            Ok(page) => Handled::Run(Command::AddPage { page }),
                            Err(_) => {
                                assert(false);
                                Handled::Run(Command::ListUnpublished)
                            },
                        }
                    },
                    _ => {
                        assert(false);
                        Handled::Run(Command::ListUnpublished)
                    },
                }
            },
            RequestMethod::GetPage => {
                match values.pop() {
                    Some((_, ArgValue::Text(name))) => {
                        assert(views =~= seq![("name"@, ArgValueView::Text(name@))]);
                        Handled::Run(Command::GetPage { name })
                    },
                    _ => {
                        assert(false);
                        Handled::Run(Command::ListUnpublished)
                    },
                }
            },
            RequestMethod::RemovePage => {
                match values.pop() {
                    Some((_, ArgValue::Text(name))) => {
                        assert(views =~= seq![("name"@, ArgValueView::Text(name@))]);
                        Handled::Run(Command::RemovePage { name })
                    },
                    _ => {
                        assert(false);
                        Handled::Run(Command::ListUnpublished)
                    },
                }
            },
            RequestMethod::Publish => {
                match values.pop() {
                    Some((_, ArgValue::Number(publisher_fee))) => {
                        assert(views =~= seq![
                            ("publisher_fee"@, ArgValueView::Number(publisher_fee)),
                        ]);
                        Handled::Run(Command::Publish { publisher_fee })
                    },
                    _ => {
                        assert(false);
                        Handled::Run(Command::ListUnpublished)
                    },
                }
            },
            RequestMethod::Help => {
                match values.pop() {
                    Some((_, ArgValue::Text(asked))) => {
                        match RequestMethod::from_string(asked.as_str()) {
                            Some(found) => Handled::Reply(found.help()),
                            None => Handled::Reply(unknown_method(asked.as_str())),
                        }
                    },
                    _ => {
                        assert(false);
                        Handled::Run(Command::ListUnpublished)
                    },
                }
            },
        }
    }
}

/// Once an argument is rejected, the rejection stands for every longer list.
pub proof fn lemma_rejection_stays(
    specs: Seq<(Seq<char>, ArgumentType)>,
    args: Seq<Seq<char>>,
    count: int,
    upto: int,
)
    requires
        count <= upto,
        checked_arguments(specs, args, count) is Err,
    ensures
        checked_arguments(specs, args, upto) == checked_arguments(specs, args, count),
    decreases upto - count,
{
    if count < upto {
        lemma_rejection_stays(specs, args, count, upto - 1);
    }
}

/// Arguments that pass their checks come out one for each type, under its
/// name and of the kind of value that the type gives.
pub proof fn lemma_checked_arguments_shape(
    specs: Seq<(Seq<char>, ArgumentType)>,
    args: Seq<Seq<char>>,
    count: int,
)
    requires
        0 <= count <= specs.len(),
    ensures
        checked_arguments(specs, args, count) matches Ok(values) ==> {
            &&& values.len() == count
            &&& forall|i: int|
                0 <= i < count ==> {
                    &&& (#[trigger] values[i]).0 == specs[i].0
                    &&& checked_argument(specs[i].0, specs[i].1, args[i]) == Ok::<
                        ArgValueView,
                        Seq<char>,
                    >(values[i].1)
                }
        },
    decreases count,
{
    if count > 0 {
        lemma_checked_arguments_shape(specs, args, count - 1);
    }
}

/// The text that reports that a page of this name waits already.
pub open spec fn page_exists_message(name: Seq<char>) -> Seq<char> {
    "Page("@ + name + ") already exists"@
}

/// The reply to a request to add a page under a name that is taken.
pub fn page_exists_reply(name: &str) -> (reply: JsonResponse)
    ensures
        reply@ == error_reply(page_exists_message(name@)),
{
    let mut message = String::from_str("Page(");
    message.append(name);
    message.append(") already exists");
    JsonResponse::error(message)
}

/// The reply to a request to remove a page: `1` where it was removed, `0`
/// where there was none.
pub fn removed_reply(removed: bool) -> (reply: JsonResponse)
    ensures
        reply.status == STATUS_SUCCESS,
        reply.message@ == (if removed { "1"@ } else { "0"@ }),
{
    if removed {
        JsonResponse::success(String::from_str("1"))
    } else {
        JsonResponse::success(String::from_str("0"))
    }
}

} // verus!
