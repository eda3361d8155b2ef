//! The start-up code of an STM32 chip.

use crate::text::decimal;
use vstd::prelude::*;
use vstd::string::*;

#[allow(unused_imports)]
use crate::text::{decimal_text, decimal_value, lemma_decimal_text};

verus! {

/// A prefix of module paths.
pub struct ModulePrefix {
    prefix: String,
}

impl View for ModulePrefix {
    type V = Seq<char>;

    closed spec fn view(&self) -> Seq<char> {
        self.prefix@
    }
}

impl ModulePrefix {
    /// Creates a prefix from its text.
    pub fn new(prefix: &str) -> (r: Self)
        ensures
            r@ == prefix@,
    {
        ModulePrefix { prefix: prefix.to_owned() }
    }

    /// The prefix followed by a component.
    pub fn append(&self, component: &str) -> (r: ModulePrefix)
        ensures
            r@ == self@ + component@,
    {
        let mut prefix = self.prefix.clone();
        prefix.append(component);
        ModulePrefix { prefix }
    }

    /// The path that the prefix spells.
    pub fn path(&self) -> (r: &str)
        ensures
            r@ == self@,
    {
        self.prefix.as_str()
    }
}

/// The arguments of the start-up macro; frequencies are in megahertz.
pub struct Args {
    pub embassy_prefix: ModulePrefix,
    pub use_hse: Option<u32>,
    pub sysclk: Option<u32>,
    pub pclk1: Option<u32>,
    pub require_pll48clk: bool,
}

impl Default for Args {
    /// No clock setting, and paths that start at the crate roots.
    fn default() -> (r: Args)
        ensures
            r.embassy_prefix@ == "::"@,
            r.use_hse is None,
            r.sysclk is None,
            r.pclk1 is None,
            !r.require_pll48clk,
    {
        Args {
            embassy_prefix: ModulePrefix::new("::"),
            use_hse: None,
            sysclk: None,
            pclk1: None,
            require_pll48clk: false,
        }
    }
}

/// A call that sets a frequency, `method` being its text up to the number.
pub open spec fn frequency_call(method: Seq<char>, mhz: Option<u32>) -> Seq<char> {
    match mhz {
        Some(n) => method + decimal_text(n as nat) + "u32.mhz())"@,
        None => Seq::empty(),
    }
}

/// The clock settings as a chain of method calls.
pub open spec fn clock_cfg_text(args: Args) -> Seq<char> {
    frequency_call(".use_hse("@, args.use_hse) + frequency_call(".sysclk("@, args.sysclk)
        + frequency_call(".pclk1("@, args.pclk1) + if args.require_pll48clk {
        ".require_pll48clk()"@
    } else {
        Seq::empty()
    }
}

fn push_frequency(text: &mut String, method: &str, mhz: Option<u32>)
    ensures
        final(text)@ == old(text)@ + frequency_call(method@, mhz),
{
    if let Some(n) = mhz {
        text.append(method);
        text.append(decimal(n).as_str());
        text.append("u32.mhz())");
    }
    proof {
        assert(text@ =~= old(text)@ + frequency_call(method@, mhz));
    }
}

/// Writes the clock settings as a chain of method calls, in a fixed order.
pub fn clock_cfg_args(args: &Args) -> (r: String)
    ensures
        r@ == clock_cfg_text(*args),
{
    let mut r = String::new();
    push_frequency(&mut r, ".use_hse(", args.use_hse);
    push_frequency(&mut r, ".sysclk(", args.sysclk);
    push_frequency(&mut r, ".pclk1(", args.pclk1);
    if args.require_pll48clk {
        r.append(".require_pll48clk()");
    }
    proof {
        assert(r@ =~= clock_cfg_text(*args));
    }
    r
}

/// The start-up code for a prefix of module paths.
pub open spec fn startup_text(prefix: Seq<char>) -> Seq<char> {
    "use "@ + (prefix + "embassy_stm32"@)
        + "::{rtc, interrupt, Peripherals, pac, hal, hal::rcc::{Config, RccExt}, hal::time::U32Ext};
let dp = pac::Peripherals::take().unwrap();
let mut rcc = dp.RCC.freeze(Config::hsi16());
let clocks = rcc.clocks;
unsafe { Peripherals::set_peripherals(clocks) };
let mut rtc = rtc::RTC::new(dp.TIM2, interrupt::take!(TIM2), clocks);
let rtc = unsafe { make_static(&mut rtc) };
rtc.start();
let mut alarm = rtc.alarm1();
unsafe { "@ + (prefix + "embassy"@)
        + "::time::set_clock(rtc) };
let alarm = unsafe { make_static(&mut alarm) };
executor.set_alarm(alarm);
"@
}

/// Writes the start-up code.
///
/// The chip runs from its internal 16 MHz oscillator whatever the clock settings are: of the
/// arguments only the prefix shows in the code.
pub fn generate(args: &Args) -> (r: String)
    ensures
        r@ == startup_text(args.embassy_prefix@),
{
    let embassy = args.embassy_prefix.append("embassy");
    let embassy_stm32 = args.embassy_prefix.append("embassy_stm32");
    let mut r = "use ".to_owned();
    r.append(embassy_stm32.path());
    r.append("::{rtc, interrupt, Peripherals, pac, hal, hal::rcc::{Config, RccExt}, hal::time::U32Ext};
let dp = pac::Peripherals::take().unwrap();
let mut rcc = dp.RCC.freeze(Config::hsi16());
let clocks = rcc.clocks;
unsafe { Peripherals::set_peripherals(clocks) };
let mut rtc = rtc::RTC::new(dp.TIM2, interrupt::take!(TIM2), clocks);
let rtc = unsafe { make_static(&mut rtc) };
rtc.start();
let mut alarm = rtc.alarm1();
unsafe { ");
    r.append(embassy.path());
    r.append("::time::set_clock(rtc) };
let alarm = unsafe { make_static(&mut alarm) };
executor.set_alarm(alarm);
");
    r
}

/// A setting that was not given has no call. One that was given has a call that starts with its
/// method and holds its number.
pub proof fn lemma_frequency_call(method: Seq<char>, mhz: Option<u32>)
    ensures
        match mhz {
            Some(n) => exists|number: Seq<char>|
                {
                    &&& #[trigger] decimal_value(number) == n
                    &&& frequency_call(method, mhz) == method + number + "u32.mhz())"@
                },
            None => frequency_call(method, mhz).len() == 0,
        },
{
    if let Some(n) = mhz {
        lemma_decimal_text(n as nat);
    }
}

/// Each clock setting shows by itself, and the settings stand in a fixed order.
pub proof fn lemma_settings_stand_alone(args: Args)
    ensures
        ({
            let none = Args {
                use_hse: None,
                sysclk: None,
                pclk1: None,
                require_pll48clk: false,
                ..args
            };
            &&& clock_cfg_text(none).len() == 0
            &&& clock_cfg_text(args) == clock_cfg_text(Args { use_hse: args.use_hse, ..none })
                + clock_cfg_text(Args { sysclk: args.sysclk, ..none }) + clock_cfg_text(
                Args { pclk1: args.pclk1, ..none },
            ) + clock_cfg_text(Args { require_pll48clk: args.require_pll48clk, ..none })
            &&& args.use_hse is Some ==> ".use_hse("@.is_prefix_of(
                clock_cfg_text(Args { use_hse: args.use_hse, ..none }),
            )
            &&& args.sysclk is Some ==> ".sysclk("@.is_prefix_of(
                clock_cfg_text(Args { sysclk: args.sysclk, ..none }),
            )
            &&& args.pclk1 is Some ==> ".pclk1("@.is_prefix_of(
                clock_cfg_text(Args { pclk1: args.pclk1, ..none }),
            )
            &&& args.require_pll48clk ==> clock_cfg_text(
                Args { require_pll48clk: true, ..none },
            ) == ".require_pll48clk()"@
        }),
{
}

/// The prefix stands before the two paths of the start-up code as it was given, and the rest of the
/// code is the same for every prefix.
pub proof fn lemma_prefix_fills_the_gaps(prefix: Seq<char>, other: Seq<char>)
    ensures
        exists|head: Seq<char>, middle: Seq<char>, tail: Seq<char>|
            {
                &&& startup_text(prefix) == #[trigger] (head + prefix + middle + prefix + tail)
                &&& startup_text(other) == head + other + middle + other + tail
            },
{
    let head = "use "@;
    let middle = "embassy_stm32"@
        + "::{rtc, interrupt, Peripherals, pac, hal, hal::rcc::{Config, RccExt}, hal::time::U32Ext};
let dp = pac::Peripherals::take().unwrap();
let mut rcc = dp.RCC.freeze(Config::hsi16());
let clocks = rcc.clocks;
unsafe { Peripherals::set_peripherals(clocks) };
let mut rtc = rtc::RTC::new(dp.TIM2, interrupt::take!(TIM2), clocks);
let rtc = unsafe { make_static(&mut rtc) };
rtc.start();
let mut alarm = rtc.alarm1();
unsafe { "@;
    let tail = "embassy"@ + "::time::set_clock(rtc) };
let alarm = unsafe { make_static(&mut alarm) };
executor.set_alarm(alarm);
"@;
    assert(startup_text(prefix) =~= head + prefix + middle + prefix + tail);
    assert(startup_text(other) =~= head + other + middle + other + tail);
}

} // verus!
