use vstd::prelude::*;
use vstd::string::*;

use std::sync::Arc;

use crate::hook::Tap;

verus! {

/// The compilation that a render hook is fired for.
pub struct Compilation {
    pub id: u32,
}

/// The text being rendered.
pub struct Source {
    pub content: String,
}

/// What the render hook hands its taps.
pub struct RenderContext {
    pub compilation: Compilation,
    pub source: Source,
}

/// The decimal digit `d`.
pub open spec fn digit_char(d: nat) -> char {
    seq!['0', '1', '2', '3', '4', '5', '6', '7', '8', '9'][d as int]
}

/// `n` in decimal, without leading zeros.
pub open spec fn decimal(n: nat) -> Seq<char>
    decreases n,
{
    if n < 10 {
        seq![digit_char(n)]
    } else {
        decimal(n / 10).push(digit_char(n % 10))
    }
}

fn digit_str(d: u32) -> (s: &'static str)
    requires
        d < 10,
    ensures
        s@ == seq![digit_char(d as nat)],
{
    proof {
        reveal_strlit("0");
        reveal_strlit("1");
        reveal_strlit("2");
        reveal_strlit("3");
        reveal_strlit("4");
        reveal_strlit("5");
        reveal_strlit("6");
        reveal_strlit("7");
        reveal_strlit("8");
        reveal_strlit("9");
    }
    match d {
        0 => "0",
        1 => "1",
        2 => "2",
        3 => "3",
        4 => "4",
        5 => "5",
        6 => "6",
        7 => "7",
        8 => "8",
        _ => "9",
    }
}

/// Appends `n` in decimal to `out`.
pub fn push_decimal(out: &mut String, n: u32)
    ensures
        final(out)@ == old(out)@ + decimal(n as nat),
    decreases n,
{
    if n >= 10 {
        push_decimal(out, n / 10);
    }
    out.append(digit_str(n % 10));
    proof {
        assert(old(out)@ + decimal(n as nat) =~= if n >= 10 {
            old(out)@ + decimal((n / 10) as nat) + seq![digit_char((n % 10) as nat)]
        } else {
            old(out)@ + seq![digit_char((n % 10) as nat)]
        });
    }
}

/// The state that the render plugin shares with its taps.
pub struct MyRenderPluginInner;

/// A plugin whose tap marks the rendered text with the compilation's id.
pub struct MyRenderPlugin {
    inner: Arc<MyRenderPluginInner>,
}

/// Relies on `Arc::clone`: a second handle to the same state.
#[verifier::external_body]
fn share_inner(inner: &Arc<MyRenderPluginInner>) -> Arc<MyRenderPluginInner> {
    Arc::clone(inner)
}

impl MyRenderPlugin {
    pub fn new_inner() -> Self {
        MyRenderPlugin { inner: Arc::new(MyRenderPluginInner) }
    }

    pub fn from_inner(inner: &Arc<MyRenderPluginInner>) -> Self {
        MyRenderPlugin { inner: share_inner(inner) }
    }

    pub fn inner(&self) -> &Arc<MyRenderPluginInner> {
        &self.inner
    }

    /// Appends `plugin.render` and the compilation's id to the source, and
    /// decides the call.
    pub fn render(&self, compilation: &Compilation, source: &mut Source) -> (r: Result<
        Option<bool>,
        (),
    >)
        ensures
            r == Ok::<Option<bool>, ()>(Some(true)),
            final(source).content@ == old(source).content@ + "plugin.render"@ + decimal(
                compilation.id as nat,
            ),
    {
        source.content.append("plugin.render");
        push_decimal(&mut source.content, compilation.id);
        Ok(Some(true))
    }
}

/// The render plugin's tap, at stage 0.
#[allow(non_camel_case_types)]
pub struct render {
    inner: Arc<MyRenderPluginInner>,
}

impl render {
    pub fn new(plugin: &MyRenderPlugin) -> Self {
        render { inner: share_inner(plugin.inner()) }
    }
}

impl Tap<RenderContext, bool, ()> for render {
    open spec fn ran(&self, before: RenderContext, after: RenderContext, out: Result<Option<bool>, ()>) -> bool {
        true
    }

    fn stage(&self) -> i32 {
        0
    }

    fn run(&self, ctx: &mut RenderContext) -> Result<Option<bool>, ()> {
        MyRenderPlugin::from_inner(&self.inner).render(&ctx.compilation, &mut ctx.source)
    }
}

} // verus!
