//! Small decisions of the desktop controls that are built on the pipeline
//! runner: which icon shows a level, which step a brightness change takes,
//! and the device settings that write mode puts in the compositor's config.
use vstd::prelude::*;
use vstd::string::StrSliceExecFns;
use vstd::string::StringExecFns;
use crate::output::{trim, trimmed_text};
use crate::views;

verus! {

/// The icon level of a percentage: the value rounded to the nearest
/// multiple of five, halves rounding up.
pub open spec fn icon_level_spec(value: nat) -> nat {
    (value + 2) / 5 * 5
}

/// Rounds `value` to the nearest multiple of five for picking an icon.
pub fn icon_level(value: u32) -> (r: u32)
    ensures
        r == icon_level_spec(value as nat),
{
    let v: u64 = value as u64 + 2;
    let r: u64 = v / 5 * 5;
    assert(r <= v) by (nonlinear_arith)
        requires
            r == v / 5 * 5,
    ;
    assert(r <= 0xffff_ffff) by {
        assert(v / 5 <= 858993459);
    }
    r as u32
}

/// Whether a brightness change moves by one percent rather than five: when
/// asked to, or near the bottom of the range.
pub open spec fn fine_step(increase: bool, current: nat, quantise: bool) -> bool {
    quantise || (if increase { current < 10 } else { current <= 10 })
}

/// The `brightnessctl` argument for one step up or down.
pub fn brightness_step(increase: bool, current: u32, quantise: bool) -> (r: &'static str)
    ensures
        increase && fine_step(increase, current as nat, quantise) ==> r@ == "set +1%"@,
        increase && !fine_step(increase, current as nat, quantise) ==> r@ == "set +5%"@,
        !increase && fine_step(increase, current as nat, quantise) ==> r@ == "set 1%-"@,
        !increase && !fine_step(increase, current as nat, quantise) ==> r@ == "set 5%-"@,
{
    if increase {
        if current < 10 || quantise { "set +1%" } else { "set +5%" }
    } else {
        if current <= 10 || quantise { "set 1%-" } else { "set 5%-" }
    }
}

/// The config block that sets one input device on or off.
pub open spec fn device_block(name: Seq<char>, enabled: bool) -> Seq<char> {
    "device {\n  name = "@ + name + "\n  enabled = "@
        + (if enabled { "true"@ } else { "false"@ }) + "\n}\n"@
}

/// The config blocks of several devices, in order.
pub open spec fn device_blocks(names: Seq<Seq<char>>, enabled: bool) -> Seq<char>
    decreases names.len(),
{
    if names.len() == 0 {
        seq![]
    } else {
        device_blocks(names.drop_last(), enabled) + device_block(names.last(), enabled)
    }
}

/// The config text that turns each of `devices` on or off.
pub fn device_settings(devices: &Vec<String>, enabled: bool) -> (r: String)
    ensures
        r@ == device_blocks(views(devices@), enabled),
{
    let mut text = String::new();
    let mut i: usize = 0;
    while i < devices.len()
        invariant
            i <= devices@.len(),
            text@ == device_blocks(views(devices@.subrange(0, i as int)), enabled),
        decreases devices@.len() - i,
    {
        let ghost before = text@;
        text.append("device {\n  name = ");
        text.append(devices[i].as_str());
        text.append("\n  enabled = ");
        if enabled {
            text.append("true");
        } else {
            text.append("false");
        }
        text.append("\n}\n");
        proof {
            let names = views(devices@.subrange(0, i + 1));
            assert(names.drop_last() == views(devices@.subrange(0, i as int)));
            assert(names.last() == devices@[i as int]@);
            assert(text@ =~= before + device_block(devices@[i as int]@, enabled));
        }
        i = i + 1;
    }
    assert(devices@.subrange(0, devices@.len() as int) == devices@);
    text
}

/// Whether the saved write-mode state reads as on: its trimmed text is `1`.
pub open spec fn state_is_on(contents: Seq<char>) -> bool {
    trimmed_text(contents) == seq!['1']
}

/// Reads the saved write-mode state.
pub fn write_mode_enabled(contents: &str) -> (r: bool)
    ensures
        r == state_is_on(contents@),
{
    let t = trim(contents);
    let s = t.as_str();
    if s.unicode_len() == 1 {
        let c = s.get_char(0);
        assert(c == '1' ==> s@ =~= seq!['1']);
        c == '1'
    } else {
        false
    }
}

} // verus!
