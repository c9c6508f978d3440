//! The bookkeeping hook in WSL (`~/.kimi-code/`): the check whether it is
//! installed and the three steps that install it.
use vstd::prelude::*;
use vstd::utf8::encode_utf8;
use crate::strings::{concat, concat_spec, concat2, str_equals};
use crate::wsl::{base64_encode, base64_standard};

verus! {

/// The check: prints `yes` when `config.toml` names the hook and the script exists.
/// It always exits with 0, so that "not installed" differs from a failed command.
pub const CHECK_SCRIPT: &'static str = "grep -q companion-hook ~/.kimi-code/config.toml 2>/dev/null && test -f ~/.kimi-code/companion-hook.sh && echo yes; true";

/// The hooks appended to `config.toml` (the same text as the manual install script).
pub const HOOKS_TOML: &'static str = "\n# Kimi Companion: token bookkeeping (https://github.com/kimi-companion)\n[[hooks]]\nevent = \"Stop\"\ncommand = \"bash ~/.kimi-code/companion-hook.sh\"\ntimeout = 10\n\n[[hooks]]\nevent = \"Interrupt\"\ncommand = \"bash ~/.kimi-code/companion-hook.sh\"\ntimeout = 10\n\n[[hooks]]\nevent = \"SessionEnd\"\ncommand = \"bash ~/.kimi-code/companion-hook.sh\"\ntimeout = 10\n";

/// The last installation step: fill in the history.
pub const BACKFILL_SCRIPT: &'static str = "python3 ~/.kimi-code/companion-hook.py --backfill";

/// Whether the hook is installed, from the output of [`CHECK_SCRIPT`].
pub fn check_installed(output: &str) -> (res: bool)
    ensures
        res == (output@ == "yes"@),
{
    str_equals(output, "yes")
}

/// The first step: write both scripts (overwriting them) and make the shell script
/// executable; the contents travel base64-encoded.
pub open spec fn write_scripts_spec(py: Seq<char>, sh: Seq<char>) -> Seq<char> {
    "mkdir -p ~/.kimi-code && echo '"@ + base64_standard(encode_utf8(py))
        + "' | base64 -d > ~/.kimi-code/companion-hook.py && echo '"@ + base64_standard(
        encode_utf8(sh),
    ) + "' | base64 -d > ~/.kimi-code/companion-hook.sh && chmod +x ~/.kimi-code/companion-hook.sh"@
}

/// The second step: append the hooks to `config.toml` only when it does not name the
/// hook yet, after a time-stamped backup.
pub open spec fn configure_spec() -> Seq<char> {
    "if ! grep -q companion-hook ~/.kimi-code/config.toml 2>/dev/null; then cp ~/.kimi-code/config.toml ~/.kimi-code/config.toml.$(date +%Y%m%d-%H%M%S).bak 2>/dev/null || true; echo '"@
        + base64_standard(encode_utf8(HOOKS_TOML@))
        + "' | base64 -d >> ~/.kimi-code/config.toml; fi"@
}

/// The entry of `config.toml` that runs the hook script on `event`.
pub open spec fn hook_entry(event: Seq<char>) -> Seq<char> {
    "event = \""@ + event + "\"\ncommand = \"bash ~/.kimi-code/companion-hook.sh\""@
}

/// `p` stands in `t` from position `i`.
pub open spec fn text_at(t: Seq<char>, p: Seq<char>, i: int) -> bool {
    0 <= i && i + p.len() <= t.len() && t.subrange(i, i + p.len()) == p
}

/// `p` stands somewhere in `t`.
pub open spec fn text_contains(t: Seq<char>, p: Seq<char>) -> bool {
    exists|i: int| #[trigger] text_at(t, p, i)
}

/// Law: the configuration step appends exactly [`HOOKS_TOML`] to `config.toml`
/// (it travels base64-encoded and is decoded inside WSL), and that text registers
/// the hook script for each of the `Stop`, `Interrupt` and `SessionEnd` events, so
/// that interrupted and ended sessions are booked as well as finished turns.
pub proof fn law_configure_registers_all_events()
    ensures
        configure_spec() == "if ! grep -q companion-hook ~/.kimi-code/config.toml 2>/dev/null; then cp ~/.kimi-code/config.toml ~/.kimi-code/config.toml.$(date +%Y%m%d-%H%M%S).bak 2>/dev/null || true; echo '"@
            + base64_standard(encode_utf8(HOOKS_TOML@)) + "' | base64 -d >> ~/.kimi-code/config.toml; fi"@,
        text_contains(HOOKS_TOML@, hook_entry("Stop"@)),
        text_contains(HOOKS_TOML@, hook_entry("Interrupt"@)),
        text_contains(HOOKS_TOML@, hook_entry("SessionEnd"@)),
{
    reveal_strlit("\n# Kimi Companion: token bookkeeping (https://github.com/kimi-companion)\n[[hooks]]\nevent = \"Stop\"\ncommand = \"bash ~/.kimi-code/companion-hook.sh\"\ntimeout = 10\n\n[[hooks]]\nevent = \"Interrupt\"\ncommand = \"bash ~/.kimi-code/companion-hook.sh\"\ntimeout = 10\n\n[[hooks]]\nevent = \"SessionEnd\"\ncommand = \"bash ~/.kimi-code/companion-hook.sh\"\ntimeout = 10\n");
    reveal_strlit("Stop");
    reveal_strlit("Interrupt");
    reveal_strlit("SessionEnd");
    reveal_strlit("event = \"");
    reveal_strlit("\"\ncommand = \"bash ~/.kimi-code/companion-hook.sh\"");
    let t = HOOKS_TOML@;
    assert(t.subrange(83, 145) =~= hook_entry("Stop"@));
    assert(text_at(t, hook_entry("Stop"@), 83));
    assert(t.subrange(170, 237) =~= hook_entry("Interrupt"@));
    assert(text_at(t, hook_entry("Interrupt"@), 170));
    assert(t.subrange(262, 330) =~= hook_entry("SessionEnd"@));
    assert(text_at(t, hook_entry("SessionEnd"@), 262));
}

/// The three installation steps, in order: write the scripts, configure the hooks,
/// fill in the history.
pub fn install_commands(hook_py: &str, hook_sh: &str) -> (res: Vec<String>)
    ensures
        res@.len() == 3,
        res@[0]@ == write_scripts_spec(hook_py@, hook_sh@),
        res@[1]@ == configure_spec(),
        res@[1]@ == "if ! grep -q companion-hook ~/.kimi-code/config.toml 2>/dev/null; then cp ~/.kimi-code/config.toml ~/.kimi-code/config.toml.$(date +%Y%m%d-%H%M%S).bak 2>/dev/null || true; echo '"@
            + base64_standard(encode_utf8(HOOKS_TOML@)) + "' | base64 -d >> ~/.kimi-code/config.toml; fi"@,
        res@[2]@ == BACKFILL_SCRIPT@,
{
    let py_b64 = base64_encode(hook_py);
    let sh_b64 = base64_encode(hook_sh);
    let first = concat(
        &[
            "mkdir -p ~/.kimi-code && echo '",
            py_b64.as_str(),
            "' | base64 -d > ~/.kimi-code/companion-hook.py && echo '",
            sh_b64.as_str(),
            "' | base64 -d > ~/.kimi-code/companion-hook.sh && chmod +x ~/.kimi-code/companion-hook.sh",
        ],
    );
    proof {
        reveal_with_fuel(concat_spec, 6);
    }
    let hooks_b64 = base64_encode(HOOKS_TOML);
    let second = concat(
        &[
            "if ! grep -q companion-hook ~/.kimi-code/config.toml 2>/dev/null; then cp ~/.kimi-code/config.toml ~/.kimi-code/config.toml.$(date +%Y%m%d-%H%M%S).bak 2>/dev/null || true; echo '",
            hooks_b64.as_str(),
            "' | base64 -d >> ~/.kimi-code/config.toml; fi",
        ],
    );
    proof {
        reveal_with_fuel(concat_spec, 4);
    }
    let third = crate::strings::owned(BACKFILL_SCRIPT);
    let mut v: Vec<String> = Vec::new();
    v.push(first);
    v.push(second);
    v.push(third);
    v
}

/// The error of a failed installation step (0, 1 or 2).
pub open spec fn install_error_spec(step: nat, e: Seq<char>) -> Seq<char> {
    if step == 0 {
        "写入 hook 脚本失败: "@ + e
    } else if step == 1 {
        "更新 config.toml 失败: "@ + e
    } else {
        "hook 已安装，但历史回填失败: "@ + e
    }
}

/// The error of the installation step `step` that failed with `e`.
pub fn install_error(step: usize, e: &str) -> (res: String)
    ensures
        res@ == install_error_spec(step as nat, e@),
{
    if step == 0 {
        concat2("写入 hook 脚本失败: ", e)
    } else if step == 1 {
        concat2("更新 config.toml 失败: ", e)
    } else {
        concat2("hook 已安装，但历史回填失败: ", e)
    }
}

} // verus!
