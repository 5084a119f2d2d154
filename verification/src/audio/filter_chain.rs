//! Where the EQ filter-chain's configuration lives and which program runs it.
use vstd::prelude::*;

use crate::text::{append_str, decimal, decimal_chars, extend_chars, string_of};

verus! {

/// The program that runs the filter-chain and the flag that passes it the
/// configuration file: the standalone `pipewire-filter-chain` when it is
/// installed, else `pipewire -c`.
pub fn filter_chain_launcher(has_filter_chain_program: bool, has_pipewire: bool) -> (r: Result<
    (&'static str, &'static str),
    String,
>)
    ensures
        match r {
            Ok((p, f)) => if has_filter_chain_program {
                p@ == "pipewire-filter-chain"@ && f@ == "--config"@
            } else {
                has_pipewire && p@ == "pipewire"@ && f@ == "-c"@
            },
            Err(e) => !has_filter_chain_program && !has_pipewire && e@
                == "Neither pipewire-filter-chain nor pipewire found in PATH"@,
        },
{
    if has_filter_chain_program {
        Ok(("pipewire-filter-chain", "--config"))
    } else if has_pipewire {
        Ok(("pipewire", "-c"))
    } else {
        Err(String::from_str("Neither pipewire-filter-chain nor pipewire found in PATH"))
    }
}

/// The runtime directory used when `XDG_RUNTIME_DIR` is not set.
pub fn default_runtime_dir(uid: u32) -> (r: String)
    ensures
        r@ == "/run/user/"@ + decimal(uid as nat),
{
    let mut v: Vec<char> = Vec::new();
    append_str(&mut v, "/run/user/");
    let digits = decimal_chars(uid as u64);
    extend_chars(&mut v, &digits);
    string_of(&v)
}

/// The filter-chain configuration file under the runtime directory.
pub fn filter_chain_config_path(runtime_dir: &str) -> (r: String)
    ensures
        r@ == runtime_dir@ + "/soundsync/filter-chain.conf"@,
{
    let mut v: Vec<char> = Vec::new();
    append_str(&mut v, runtime_dir);
    append_str(&mut v, "/soundsync/filter-chain.conf");
    string_of(&v)
}

} // verus!
