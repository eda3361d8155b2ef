use embassy::macros::actor::{hello_macro_derive, impl_hello_macro, try_hello_macro_derive};
use embassy::macros::stm32::{clock_cfg_args, generate, Args, ModulePrefix};

#[test]
fn the_handler_calls_the_derived_type() {
    let text = hello_macro_derive("pub struct Greeter { count: u32 }");
    assert_eq!(text, impl_hello_macro("Greeter"));
    assert_eq!(
        text,
        "#[embassy::task]
async fn handle_myactor(state: &'static ActorState<'static, MyActor>) {
    let channel = &state.channel;
    let mut actor = state.actor.borrow_mut();
    loop {
        log::info!(\"Awaiting request\");
        let request = channel.receive().await;
        Greeter::process(&mut actor, request).await;
    }
}
"
    );
    assert!(syn::parse_str::<syn::ItemFn>(&text).is_ok());
}

#[test]
fn items_that_declare_a_type() {
    assert_eq!(
        try_hello_macro_derive("enum Kind { A, B }"),
        Some(impl_hello_macro("Kind"))
    );
    assert_eq!(
        try_hello_macro_derive("#[repr(C)] union Word<T: Copy> { a: T, b: u32 }"),
        Some(impl_hello_macro("Word"))
    );
    assert_eq!(
        try_hello_macro_derive("struct Foo([u8; c\"x\"]);"),
        Some(impl_hello_macro("Foo"))
    );
    assert_eq!(
        try_hello_macro_derive("enum Bar { A = c\"x\" }"),
        Some(impl_hello_macro("Bar"))
    );
    assert_eq!(
        try_hello_macro_derive("struct r#type<'a>(&'a str);"),
        Some(impl_hello_macro("r#type"))
    );
    assert_eq!(try_hello_macro_derive("struct \"x\";"), None);
    assert_eq!(try_hello_macro_derive("struct Foo("), None);
    assert_eq!(try_hello_macro_derive("fn f() {}"), None);
    assert_eq!(try_hello_macro_derive(""), None);
}

#[test]
fn start_up_code() {
    let args = Args::default();
    assert_eq!(
        generate(&args),
        "use ::embassy_stm32::{rtc, interrupt, Peripherals, pac, hal, hal::rcc::{Config, RccExt}, hal::time::U32Ext};
let dp = pac::Peripherals::take().unwrap();
let mut rcc = dp.RCC.freeze(Config::hsi16());
let clocks = rcc.clocks;
unsafe { Peripherals::set_peripherals(clocks) };
let mut rtc = rtc::RTC::new(dp.TIM2, interrupt::take!(TIM2), clocks);
let rtc = unsafe { make_static(&mut rtc) };
rtc.start();
let mut alarm = rtc.alarm1();
unsafe { ::embassy::time::set_clock(rtc) };
let alarm = unsafe { make_static(&mut alarm) };
executor.set_alarm(alarm);
"
    );
    assert!(syn::parse_str::<syn::Block>(&format!("{{ {} }}", generate(&args))).is_ok());
}

#[test]
fn the_prefix_leads_both_paths() {
    let args = Args {
        embassy_prefix: ModulePrefix::new("a::b::"),
        use_hse: Some(8),
        ..Args::default()
    };
    let text = generate(&args);
    assert!(text.starts_with("use a::b::embassy_stm32::{rtc"));
    assert!(text.contains("unsafe { a::b::embassy::time::set_clock(rtc) };"));
    assert!(!text.contains("use_hse"));
    assert_eq!(ModulePrefix::new("x::").append("y").path(), "x::y");
}

#[test]
fn clock_settings_in_a_fixed_order() {
    assert_eq!(clock_cfg_args(&Args::default()), "");
    let args = Args {
        use_hse: Some(8),
        sysclk: Some(48),
        pclk1: Some(24),
        require_pll48clk: true,
        ..Args::default()
    };
    assert_eq!(
        clock_cfg_args(&args),
        ".use_hse(8u32.mhz()).sysclk(48u32.mhz()).pclk1(24u32.mhz()).require_pll48clk()"
    );
    let args = Args {
        pclk1: Some(1),
        ..Args::default()
    };
    assert_eq!(clock_cfg_args(&args), ".pclk1(1u32.mhz())");
}
