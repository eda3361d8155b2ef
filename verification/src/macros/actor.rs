//! The derive macro that makes a type the handler of an actor's requests.

use vstd::prelude::*;
use vstd::string::*;

verus! {

/// The name of the type that a derive macro is applied to, given the source text of its item;
/// `None` if the text is not a struct, an enum or a union.
pub uninterp spec fn derive_ident(item: Seq<char>) -> Option<Seq<char>>;

/// Calls `syn::parse_str` for a `syn::DeriveInput` and takes the identifier out of the result.
///
/// The text is split into tokens by proc-macro2 itself, which `proc_macro2::fallback::force`
/// asks for, and not by the compiler that may be running.
///
/// Trusted: whether the parser accepts the text, and which identifier it finds, depends on the
/// text alone.
#[verifier::external_body]
fn parse_ident(item: &str) -> (r: Option<String>)
    ensures
        match r {
            Some(name) => derive_ident(item@) == Some(name@),
            None => derive_ident(item@) is None,
        },
{
    proc_macro2::fallback::force();
    match syn::parse_str::<syn::DeriveInput>(item) {
        Ok(ast) => Some(ast.ident.to_string()),
        Err(_) => None,
    }
}

/// The text that comes before the name of the handling type.
pub open spec fn handler_head() -> Seq<char> {
    "#[embassy::task]
async fn handle_myactor(state: &'static ActorState<'static, MyActor>) {
    let channel = &state.channel;
    let mut actor = state.actor.borrow_mut();
    loop {
        log::info!(\"Awaiting request\");
        let request = channel.receive().await;
        "@
}

/// The text that comes after the name of the handling type.
pub open spec fn handler_tail() -> Seq<char> {
    "::process(&mut actor, request).await;
    }
}
"@
}

/// The task that hands each request of an actor to the type `name`.
pub open spec fn handler_text(name: Seq<char>) -> Seq<char> {
    handler_head() + name + handler_tail()
}

/// Writes the task that hands each request of an actor to the type `name`.
pub fn impl_hello_macro(name: &str) -> (r: String)
    ensures
        r@ == handler_text(name@),
{
    let mut r = "#[embassy::task]
async fn handle_myactor(state: &'static ActorState<'static, MyActor>) {
    let channel = &state.channel;
    let mut actor = state.actor.borrow_mut();
    loop {
        log::info!(\"Awaiting request\");
        let request = channel.receive().await;
        ".to_owned();
    r.append(name);
    r.append("::process(&mut actor, request).await;
    }
}
");
    r
}

/// Expands the derive macro on an item that declares a type.
pub fn hello_macro_derive(item: &str) -> (r: String)
    requires
        derive_ident(item@) is Some,
    ensures
        r@ == handler_text(derive_ident(item@)->Some_0),
{
    let name = parse_ident(item).unwrap();
    impl_hello_macro(name.as_str())
}

/// Expands the derive macro, or returns `None` if the item does not declare a type.
pub fn try_hello_macro_derive(item: &str) -> (r: Option<String>)
    ensures
        match derive_ident(item@) {
            Some(name) => r matches Some(text) && text@ == handler_text(name),
            None => r is None,
        },
{
    match parse_ident(item) {
        Some(_) => Some(hello_macro_derive(item)),
        None => None,
    }
}

/// The name of the handling type stands in the task as it was given, and the rest of the task is
/// the same for every name.
pub proof fn lemma_name_fills_a_gap(name: Seq<char>, other: Seq<char>)
    ensures
        exists|head: Seq<char>, tail: Seq<char>|
            handler_text(name) == head + name + tail && #[trigger] (head + other + tail)
                == handler_text(other),
{
    assert(handler_text(other) == handler_head() + other + handler_tail());
}

} // verus!
