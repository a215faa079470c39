//! Settings of a node.

use vstd::prelude::*;
use vstd::string::{StrSliceExecFns, StringExecFns};
use crate::error::Error;
use crate::text::{is_text, parse_unsigned, unsigned_value};

verus! {

/// Settings of a node. The last three are fixed by consensus.
#[derive(Debug)]
pub struct Config {
    /// Directory of the node's databases.
    pub datadir: String,
    /// Address on which requests are heard.
    pub cliurl: String,
    /// Address of the chain's RPC service.
    pub rpcurl: String,
    /// Password for the RPC service.
    pub rpcpassword: String,
    /// User for the RPC service.
    pub rpcuser: String,
    /// Wallet that pays for publishing.
    pub wallet: String,
    /// Wallet that watches the commitment address.
    pub watchonlywallet: String,
    /// Height from which the chain is scanned; 0 where none was given.
    pub blockheight: u64,
    /// The commitment address.
    pub address: String,
    /// Descriptor of the commitment address.
    pub descriptor: String,
    /// Least weight of a page, in base units.
    pub min_page_n_value: i64,
}

/// The commitment address.
pub const COMMITMENT_ADDRESS: &'static str = "37gsHDLSG5TJvApGfiUZDaDo9mSr6rjLv6";

/// Descriptor of the commitment address.
pub const COMMITMENT_DESCRIPTOR: &'static str = "addr(37gsHDLSG5TJvApGfiUZDaDo9mSr6rjLv6)#gs8ecs39";

/// Least weight of a page, in base units.
pub const MIN_PAGE_N_VALUE: i64 = 100;

/// Address on which requests are heard unless another is set.
pub const DEFAULT_CLI_URL: &'static str = "127.0.0.1:9443";

/// Address of the RPC service unless another is set.
pub const DEFAULT_RPC_URL: &'static str = "http://localhost:8332";

/// Name of the watching wallet unless another is set.
pub const DEFAULT_WATCH_ONLY_WALLET: &'static str = "librarywatchonly";

/// The mathematical value of a `Config`.
pub struct ConfigView {
    pub datadir: Seq<char>,
    pub cliurl: Seq<char>,
    pub rpcurl: Seq<char>,
    pub rpcpassword: Seq<char>,
    pub rpcuser: Seq<char>,
    pub wallet: Seq<char>,
    pub watchonlywallet: Seq<char>,
    pub blockheight: u64,
    pub address: Seq<char>,
    pub descriptor: Seq<char>,
    pub min_page_n_value: i64,
}

impl View for Config {
    type V = ConfigView;

    open spec fn view(&self) -> ConfigView {
        ConfigView {
            datadir: self.datadir@,
            cliurl: self.cliurl@,
            rpcurl: self.rpcurl@,
            rpcpassword: self.rpcpassword@,
            rpcuser: self.rpcuser@,
            wallet: self.wallet@,
            watchonlywallet: self.watchonlywallet@,
            blockheight: self.blockheight,
            address: self.address@,
            descriptor: self.descriptor@,
            min_page_n_value: self.min_page_n_value,
        }
    }
}

impl Clone for Config {
    fn clone(&self) -> (copy: Self)
        ensures
            copy@ == self@,
    {
        Config {
            datadir: self.datadir.clone(),
            cliurl: self.cliurl.clone(),
            rpcurl: self.rpcurl.clone(),
            rpcpassword: self.rpcpassword.clone(),
            rpcuser: self.rpcuser.clone(),
            wallet: self.wallet.clone(),
            watchonlywallet: self.watchonlywallet.clone(),
            blockheight: self.blockheight,
            address: self.address.clone(),
            descriptor: self.descriptor.clone(),
            min_page_n_value: self.min_page_n_value,
        }
    }
}

/// Why an argument sets nothing.
pub enum ArgFailure {
    /// The argument does not have exactly one `=`.
    NotKeyValue,
    /// The key is not the name of a setting.
    UnknownKey(Seq<char>),
    /// The value of `blockheight`, which is no number.
    BadNumber(Seq<char>),
}

/// Number of characters `=` in `text`.
pub open spec fn count_equals(text: Seq<char>) -> nat
    decreases text.len(),
{
    if text.len() == 0 {
        0
    } else {
        count_equals(text.drop_last()) + if text.last() == '=' {
            1nat
        } else {
            0nat
        }
    }
}

/// Position of the first `=` in `text`, or the length of `text`.
pub open spec fn first_equals(text: Seq<char>) -> int
    decreases text.len(),
{
    if text.len() == 0 {
        0
    } else if text[0] == '=' {
        0
    } else {
        1 + first_equals(text.skip(1))
    }
}

/// The name of the setting that `key` stands for: `key` without the hyphen
/// that it may start with.
pub open spec fn setting_name(key: Seq<char>) -> Seq<char> {
    if key.len() > 0 && key[0] == '-' {
        key.skip(1)
    } else {
        key
    }
}

/// The settings after the argument `key=value`, or why it sets nothing.
pub open spec fn with_setting(config: ConfigView, name: Seq<char>, value: Seq<char>) -> Result<
    ConfigView,
    ArgFailure,
> {
    if name == "datadir"@ {
        Ok(ConfigView { datadir: value, ..config })
    } else if name == "cliurl"@ {
        Ok(ConfigView { rpcuser: value, ..config })
    } else if name == "rpcurl"@ {
        Ok(ConfigView { rpcurl: value, ..config })
    } else if name == "rpcpassword"@ {
        Ok(ConfigView { rpcpassword: value, ..config })
    } else if name == "rpcuser"@ {
        Ok(ConfigView { rpcuser: value, ..config })
    } else if name == "wallet"@ {
        Ok(ConfigView { wallet: value, ..config })
    } else if name == "watchonlywallet"@ {
        Ok(ConfigView { watchonlywallet: value, ..config })
    } else if name == "blockheight"@ {
        match unsigned_value(value) {
            Some(height) => Ok(ConfigView { blockheight: height, ..config }),
            None => Err(ArgFailure::BadNumber(value)),
        }
    } else {
        Err(ArgFailure::UnknownKey(name))
    }
}

/// The name of the setting and the value that an argument of the form
/// `key=value` gives. An argument with no `=`, or with more than one, gives
/// none.
pub open spec fn key_value(arg: Seq<char>) -> Option<(Seq<char>, Seq<char>)> {
    if count_equals(arg) != 1 {
        None
    } else {
        let at = first_equals(arg);
        Some((setting_name(arg.take(at)), arg.skip(at + 1)))
    }
}

/// The settings after one argument, or why the argument sets nothing.
pub open spec fn with_argument(config: ConfigView, arg: Seq<char>) -> Result<
    ConfigView,
    ArgFailure,
> {
    match key_value(arg) {
        None => Err(ArgFailure::NotKeyValue),
        Some((name, value)) => with_setting(config, name, value),
    }
}

/// The views of a name and a value.
pub open spec fn pair_view(pair: Option<(String, String)>) -> Option<(Seq<char>, Seq<char>)> {
    match pair {
        Some((name, value)) => Some((name@, value@)),
        None => None,
    }
}

/// Splits an argument of the form `key=value` or `-key=value` into the name
/// of the setting and the value.
pub fn split_argument(arg: &str) -> (pair: Option<(String, String)>)
    ensures
        pair_view(pair) == key_value(arg@),
{
    let len = arg.unicode_len();
    let mut found: usize = 0;
    let mut at: usize = 0;
    let mut i: usize = 0;
    assert(arg@.take(0) == Seq::<char>::empty());
    while i < len
        invariant
            len == arg@.len(),
            i <= len,
            found == count_equals(arg@.take(i as int)),
            found <= i,
            found > 0 ==> at == first_equals(arg@) && at < i,
        decreases len - i,
    {
        proof {
            lemma_scan_equals(arg@, i as int);
        }
        if arg.get_char(i) == '=' {
            if found == 0 {
                at = i;
            }
            found += 1;
        }
        i += 1;
    }
    proof {
        assert(arg@.take(i as int) == arg@);
    }
    if found != 1 {
        return None;
    }
    let key = arg.substring_char(0, at);
    let value = arg.substring_char(at + 1, len).to_owned();
    proof {
        assert(key@ == arg@.take(at as int));
        assert(value@ == arg@.skip(at + 1));
    }
    let name = if key.unicode_len() > 0 && key.get_char(0) == '-' {
        key.substring_char(1, key.unicode_len())
    } else {
        key
    };
    proof {
        assert(name@ == setting_name(key@));
    }
    Some((name.to_owned(), value))
}

/// The settings after the first `count` of `args` were applied in order, up
/// to the first that sets nothing, and the failure of that one.
pub open spec fn with_arguments(config: ConfigView, args: Seq<Seq<char>>, count: int) -> (
    ConfigView,
    Option<ArgFailure>,
)
    decreases count,
{
    if count <= 0 {
        (config, None)
    } else {
        let (before, failure) = with_arguments(config, args, count - 1);
        if failure is Some {
            (before, failure)
        } else {
            match with_argument(before, args[count - 1]) {
                Ok(after) => (after, None),
                Err(why) => (before, Some(why)),
            }
        }
    }
}

/// The error stands for the failure.
pub open spec fn reports(error: Error, failure: ArgFailure) -> bool {
    match failure {
        ArgFailure::NotKeyValue => error is NodeHelpMessage,
        ArgFailure::UnknownKey(name) => error matches Error::UnknownArgument(key) && key@ == name,
        ArgFailure::BadNumber(value) => error matches Error::ParseError(text) && text@ == value,
    }
}

/// A failure stands for every longer list of arguments.
pub proof fn lemma_failure_stays(config: ConfigView, args: Seq<Seq<char>>, count: int, upto: int)
    requires
        count <= upto,
        with_arguments(config, args, count).1 is Some,
    ensures
        with_arguments(config, args, upto) == with_arguments(config, args, count),
    decreases upto - count,
{
    if count < upto {
        lemma_failure_stays(config, args, count, upto - 1);
    }
}

/// Counting `=` and finding the first go along a text from the left.
pub proof fn lemma_scan_equals(text: Seq<char>, k: int)
    requires
        0 <= k < text.len(),
    ensures
        count_equals(text.take(k + 1)) == count_equals(text.take(k)) + if text[k] == '=' {
            1nat
        } else {
            0nat
        },
        count_equals(text.take(k)) == 0 ==> first_equals(text) == if text[k] == '=' {
            k
        } else {
            first_equals(text.take(k + 1)) + first_equals(text.skip(k + 1))
        },
        count_equals(text.take(k)) == 0 ==> first_equals(text.take(k)) == k,
    decreases k,
{
    assert(text.take(k + 1).drop_last() == text.take(k));
    assert(text.take(k + 1).last() == text[k]);
    lemma_no_equals_prefix(text, k);
    if count_equals(text.take(k)) == 0 {
        lemma_no_equals_prefix(text.take(k), k);
        assert(text.take(k).take(k) == text.take(k));
        assert(text.take(k).skip(k) == Seq::<char>::empty());
        if text[k] != '=' {
            lemma_no_equals_prefix(text, k + 1);
            lemma_no_equals_prefix(text.take(k + 1), k + 1);
            assert(text.take(k + 1).take(k + 1) == text.take(k + 1));
            assert(text.take(k + 1).skip(k + 1) == Seq::<char>::empty());
        }
    }
}

/// Where the first `k` characters hold no `=`, the first `=` stands `k`
/// characters behind the first of what follows them.
pub proof fn lemma_no_equals_prefix(text: Seq<char>, k: int)
    requires
        0 <= k <= text.len(),
    ensures
        count_equals(text.take(k)) == 0 ==> first_equals(text) == k + first_equals(text.skip(k)),
    decreases k,
{
    if k > 0 && count_equals(text.take(k)) == 0 {
        assert(text.take(k).drop_last() == text.take(k - 1));
        assert(text.take(k).last() == text[k - 1]);
        lemma_no_equals_prefix(text, k - 1);
        assert(text.skip(k - 1)[0] == text[k - 1]);
        assert(text.skip(k - 1).skip(1) == text.skip(k));
    } else if k == 0 {
        assert(text.skip(0) == text);
    }
}

/// The settings of a node before any argument is applied.
pub open spec fn default_settings(datadir: Seq<char>) -> ConfigView {
    ConfigView {
        datadir,
        cliurl: DEFAULT_CLI_URL@,
        rpcurl: DEFAULT_RPC_URL@,
        rpcpassword: Seq::empty(),
        rpcuser: Seq::empty(),
        wallet: Seq::empty(),
        watchonlywallet: DEFAULT_WATCH_ONLY_WALLET@,
        blockheight: 0,
        address: COMMITMENT_ADDRESS@,
        descriptor: COMMITMENT_DESCRIPTOR@,
        min_page_n_value: MIN_PAGE_N_VALUE,
    }
}

/// The settings after the lines of a settings file, if there is one, were
/// applied up to the first that sets nothing.
pub open spec fn after_file(config: ConfigView, file_lines: Option<Vec<String>>) -> ConfigView {
    match file_lines {
        Some(lines) => with_arguments(config, arg_views(lines@), lines@.len() as int).0,
        None => config,
    }
}

impl Config {
    /// The settings of a node that keeps its databases in `datadir`, before
    /// any argument is applied.
    pub fn defaults(datadir: String) -> (config: Config)
        ensures
            config@ == default_settings(datadir@),
    {
        Config {
            datadir,
            cliurl: String::from_str(DEFAULT_CLI_URL),
            rpcurl: String::from_str(DEFAULT_RPC_URL),
            rpcpassword: String::new(),
            rpcuser: String::new(),
            wallet: String::new(),
            watchonlywallet: String::from_str(DEFAULT_WATCH_ONLY_WALLET),
            blockheight: 0,
            address: String::from_str(COMMITMENT_ADDRESS),
            descriptor: String::from_str(COMMITMENT_DESCRIPTOR),
            min_page_n_value: MIN_PAGE_N_VALUE,
        }
    }

    /// Fails where no wallet is set.
    pub fn require_wallet(&self) -> (checked: Result<(), Error>)
        ensures
            match checked {
                Ok(_) => self.wallet@.len() > 0,
                Err(error) => self.wallet@.len() == 0 && error is NoWallet,
            },
    {
        if self.wallet.as_str().unicode_len() == 0 {
            Err(Error::NoWallet)
        } else {
            Ok(())
        }
    }

    /// Completes settings to which the arguments of the command line were
    /// applied once: the lines of the settings file are applied, up to the
    /// first that sets nothing, which is passed over; then the arguments of the
    /// command line are applied again, so that they win over the file; and a
    /// wallet must be set.
    pub fn complete(&mut self, file_lines: Option<Vec<String>>, args: Vec<String>) -> (done: Result<
        (),
        Error,
    >)
        ensures
            final(self)@ == with_arguments(
                after_file(old(self)@, file_lines),
                arg_views(args@),
                args@.len() as int,
            ).0,
            match with_arguments(
                after_file(old(self)@, file_lines),
                arg_views(args@),
                args@.len() as int,
            ).1 {
                Some(failure) => done matches Err(error) && reports(error, failure),
                None => match done {
                    Ok(_) => final(self).wallet@.len() > 0,
                    Err(error) => final(self).wallet@.len() == 0 && error is NoWallet,
                },
            },
    {
        match file_lines {
            Some(lines) => {
                let _ = self.parse_args(lines);
            },
            None => {},
        }
        match self.parse_args(args) {
            Ok(()) => self.require_wallet(),
            Err(error) => Err(error),
        }
    }

    /// Applies start-up arguments of the form `key=value` or `-key=value` in
    /// order, up to the first that sets nothing. The key `cliurl` sets the
    /// user of the RPC service.
    pub fn parse_args(&mut self, args: Vec<String>) -> (parsed: Result<(), Error>)
        ensures
            final(self)@ == with_arguments(old(self)@, arg_views(args@), args@.len() as int).0,
            match with_arguments(old(self)@, arg_views(args@), args@.len() as int).1 {
                None => parsed is Ok,
                Some(failure) => parsed matches Err(error) && reports(error, failure),
            },
    {
        let ghost start = self@;
        let ghost texts = arg_views(args@);
        let mut i: usize = 0;
        while i < args.len()
            invariant
                i <= args@.len(),
                texts == arg_views(args@),
                start == old(self)@,
                with_arguments(start, texts, i as int) == (self@, None::<ArgFailure>),
            decreases args@.len() - i,
        {
            proof {
                assert(texts[i as int] == args@[i as int]@);
            }
            match self.apply_argument(args[i].as_str()) {
                Ok(()) => {},
                Err(error) => {
                    proof {
                        lemma_failure_stays(start, texts, i + 1, texts.len() as int);
                    }
                    return Err(error);
                },
            }
            i += 1;
        }
        Ok(())
    }

    /// Applies one start-up argument.
    pub fn apply_argument(&mut self, arg: &str) -> (applied: Result<(), Error>)
        ensures
            match with_argument(old(self)@, arg@) {
                Ok(after) => applied is Ok && final(self)@ == after,
                Err(failure) => {
                    &&& applied matches Err(error)
                    &&& reports(error, failure)
                    &&& final(self)@ == old(self)@
                },
            },
    {
        let (name, value) = match split_argument(arg) {
            Some(pair) => pair,
            None => {
                return Err(Error::NodeHelpMessage);
            },
        };
        let name = name.as_str();
        if is_text(name, "datadir") {
            self.datadir = value;
        } else if is_text(name, "cliurl") {
            self.rpcuser = value;
        } else if is_text(name, "rpcurl") {
            self.rpcurl = value;
        } else if is_text(name, "rpcpassword") {
            self.rpcpassword = value;
        } else if is_text(name, "rpcuser") {
            self.rpcuser = value;
        } else if is_text(name, "wallet") {
            self.wallet = value;
        } else if is_text(name, "watchonlywallet") {
            self.watchonlywallet = value;
        } else if is_text(name, "blockheight") {
            match parse_unsigned(value.as_str()) {
                Some(height) => {
                    self.blockheight = height;
                },
                None => {
                    return Err(Error::ParseError(value));
                },
            }
        } else {
            return Err(Error::UnknownArgument(name.to_owned()));
        }
        Ok(())
    }
}

/// The views of a list of arguments.
pub open spec fn arg_views(args: Seq<String>) -> Seq<Seq<char>> {
    Seq::new(args.len(), |i: int| args[i]@)
}

} // verus!
