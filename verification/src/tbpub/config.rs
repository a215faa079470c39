//! Settings of a broadcasting node.

use vstd::prelude::*;
use vstd::string::{StrSliceExecFns, StringExecFns};
use crate::config::{
    arg_views, key_value, reports, split_argument, ArgFailure, DEFAULT_CLI_URL, DEFAULT_RPC_URL,
};
use crate::error::Error;
use crate::text::is_text;

verus! {

/// Settings of a broadcasting node.
#[derive(Debug)]
pub struct Config {
    /// Directory of the node's databases.
    pub datadir: String,
    /// Address on which requests are heard.
    pub cliurl: String,
    /// Address of the chain's RPC service.
    pub rpcurl: String,
    /// Password for the RPC service.
    pub rpcpassword: String,
    /// User for the RPC service.
    pub rpcuser: String,
    /// Wallet that pays for broadcasting.
    pub wallet: String,
}

/// The mathematical value of a `Config`.
pub struct ConfigView {
    pub datadir: Seq<char>,
    pub cliurl: Seq<char>,
    pub rpcurl: Seq<char>,
    pub rpcpassword: Seq<char>,
    pub rpcuser: Seq<char>,
    pub wallet: Seq<char>,
}

impl View for Config {
    type V = ConfigView;

    open spec fn view(&self) -> ConfigView {
        ConfigView {
            datadir: self.datadir@,
            cliurl: self.cliurl@,
            rpcurl: self.rpcurl@,
            rpcpassword: self.rpcpassword@,
            rpcuser: self.rpcuser@,
            wallet: self.wallet@,
        }
    }
}

impl Clone for Config {
    fn clone(&self) -> (copy: Self)
        ensures
            copy@ == self@,
    {
        Config {
            datadir: self.datadir.clone(),
            cliurl: self.cliurl.clone(),
            rpcurl: self.rpcurl.clone(),
            rpcpassword: self.rpcpassword.clone(),
            rpcuser: self.rpcuser.clone(),
            wallet: self.wallet.clone(),
        }
    }
}

/// The settings of a node before any argument is applied.
pub open spec fn default_settings(datadir: Seq<char>) -> ConfigView {
    ConfigView {
        datadir,
        cliurl: DEFAULT_CLI_URL@,
        rpcurl: DEFAULT_RPC_URL@,
        rpcpassword: Seq::empty(),
        rpcuser: Seq::empty(),
        wallet: Seq::empty(),
    }
}

/// The settings after the argument `name=value`, or why it sets nothing.
pub open spec fn with_setting(config: ConfigView, name: Seq<char>, value: Seq<char>) -> Result<
    ConfigView,
    ArgFailure,
> {
    if name == "datadir"@ {
        Ok(ConfigView { datadir: value, ..config })
    } else if name == "cliurl"@ {
        Ok(ConfigView { rpcuser: value, ..config })
    } else if name == "rpcurl"@ {
        Ok(ConfigView { rpcurl: value, ..config })
    } else if name == "rpcpassword"@ {
        Ok(ConfigView { rpcpassword: value, ..config })
    } else if name == "rpcuser"@ {
        Ok(ConfigView { rpcuser: value, ..config })
    } else if name == "wallet"@ {
        Ok(ConfigView { wallet: value, ..config })
    } else {
        Err(ArgFailure::UnknownKey(name))
    }
}

/// The settings after one argument, or why the argument sets nothing.
pub open spec fn with_argument(config: ConfigView, arg: Seq<char>) -> Result<
    ConfigView,
    ArgFailure,
> {
    match key_value(arg) {
        None => Err(ArgFailure::NotKeyValue),
        Some((name, value)) => with_setting(config, name, value),
    }
}

/// The settings after the first `count` of `args` were applied in order, up
/// to the first that sets nothing, and the failure of that one.
pub open spec fn with_arguments(config: ConfigView, args: Seq<Seq<char>>, count: int) -> (
    ConfigView,
    Option<ArgFailure>,
)
    decreases count,
{
    if count <= 0 {
        (config, None)
    } else {
        let (before, failure) = with_arguments(config, args, count - 1);
        if failure is Some {
            (before, failure)
        } else {
            match with_argument(before, args[count - 1]) {
                Ok(after) => (after, None),
                Err(why) => (before, Some(why)),
            }
        }
    }
}

/// A failure stands for every longer list of arguments.
pub proof fn lemma_failure_stays(config: ConfigView, args: Seq<Seq<char>>, count: int, upto: int)
    requires
        count <= upto,
        with_arguments(config, args, count).1 is Some,
    ensures
        with_arguments(config, args, upto) == with_arguments(config, args, count),
    decreases upto - count,
{
    if count < upto {
        lemma_failure_stays(config, args, count, upto - 1);
    }
}

/// The settings after the lines of a settings file, if there is one, were
/// applied up to the first that sets nothing.
pub open spec fn after_file(config: ConfigView, file_lines: Option<Vec<String>>) -> ConfigView {
    match file_lines {
        Some(lines) => with_arguments(config, arg_views(lines@), lines@.len() as int).0,
        None => config,
    }
}

impl Config {
    /// The settings of a node that keeps its databases in `datadir`, before
    /// any argument is applied.
    pub fn defaults(datadir: String) -> (config: Config)
        ensures
            config@ == default_settings(datadir@),
    {
        Config {
            datadir,
            cliurl: String::from_str(DEFAULT_CLI_URL),
            rpcurl: String::from_str(DEFAULT_RPC_URL),
            rpcpassword: String::new(),
            rpcuser: String::new(),
            wallet: String::new(),
        }
    }

    /// Fails where no wallet is set.
    pub fn require_wallet(&self) -> (checked: Result<(), Error>)
        ensures
            match checked {
                Ok(_) => self.wallet@.len() > 0,
                Err(error) => self.wallet@.len() == 0 && error is NoWallet,
            },
    {
        if self.wallet.as_str().unicode_len() == 0 {
            Err(Error::NoWallet)
        } else {
            Ok(())
        }
    }

    /// Completes settings to which the arguments of the command line were
    /// applied once: the lines of the settings file are applied, up to the
    /// first that sets nothing, which is passed over; then the arguments of the
    /// command line are applied again, so that they win over the file; and a
    /// wallet must be set.
    pub fn complete(&mut self, file_lines: Option<Vec<String>>, args: Vec<String>) -> (done: Result<
        (),
        Error,
    >)
        ensures
            final(self)@ == with_arguments(
                after_file(old(self)@, file_lines),
                arg_views(args@),
                args@.len() as int,
            ).0,
            match with_arguments(
                after_file(old(self)@, file_lines),
                arg_views(args@),
                args@.len() as int,
            ).1 {
                Some(failure) => done matches Err(error) && reports(error, failure),
                None => match done {
                    Ok(_) => final(self).wallet@.len() > 0,
                    Err(error) => final(self).wallet@.len() == 0 && error is NoWallet,
                },
            },
    {
        match file_lines {
            Some(lines) => {
                let _ = self.parse_args(lines);
            },
            None => {},
        }
        match self.parse_args(args) {
            Ok(()) => self.require_wallet(),
            Err(error) => Err(error),
        }
    }

    /// Applies start-up arguments of the form `key=value` or `-key=value` in
    /// order, up to the first that sets nothing. The key `cliurl` sets the
    /// user of the RPC service.
    pub fn parse_args(&mut self, args: Vec<String>) -> (parsed: Result<(), Error>)
        ensures
            final(self)@ == with_arguments(old(self)@, arg_views(args@), args@.len() as int).0,
            match with_arguments(old(self)@, arg_views(args@), args@.len() as int).1 {
                None => parsed is Ok,
                Some(failure) => parsed matches Err(error) && reports(error, failure),
            },
    {
        let ghost start = self@;
        let ghost texts = arg_views(args@);
        let mut i: usize = 0;
        while i < args.len()
            invariant
                i <= args@.len(),
                texts == arg_views(args@),
                start == old(self)@,
                with_arguments(start, texts, i as int) == (self@, None::<ArgFailure>),
            decreases args@.len() - i,
        {
            proof {
                assert(texts[i as int] == args@[i as int]@);
            }
            match self.apply_argument(args[i].as_str()) {
                Ok(()) => {},
                Err(error) => {
                    proof {
                        lemma_failure_stays(start, texts, i + 1, texts.len() as int);
                    }
                    return Err(error);
                },
            }
            i += 1;
        }
        Ok(())
    }

    /// Applies one start-up argument.
    pub fn apply_argument(&mut self, arg: &str) -> (applied: Result<(), Error>)
        ensures
            match with_argument(old(self)@, arg@) {
                Ok(after) => applied is Ok && final(self)@ == after,
                Err(failure) => {
                    &&& applied matches Err(error)
                    &&& reports(error, failure)
                    &&& final(self)@ == old(self)@
                },
            },
    {
        let (name, value) = match split_argument(arg) {
            Some(pair) => pair,
            None => {
                return Err(Error::NodeHelpMessage);
            },
        };
        let name = name.as_str();
        if is_text(name, "datadir") {
            self.datadir = value;
        } else if is_text(name, "cliurl") {
            self.rpcuser = value;
        } else if is_text(name, "rpcurl") {
            self.rpcurl = value;
        } else if is_text(name, "rpcpassword") {
            self.rpcpassword = value;
        } else if is_text(name, "rpcuser") {
            self.rpcuser = value;
        } else if is_text(name, "wallet") {
            self.wallet = value;
        } else {
            return Err(Error::UnknownArgument(name.to_owned()));
        }
        Ok(())
    }
}

} // verus!
