//! The rewriting of messages on their way from a client to the compositor.
use crate::config::Cli;
use crate::error::ProxyError;
use crate::text::same_text;
use vstd::prelude::*;
use vstd::string::*;
use wl_proxy::object::ConcreteObject;
use wl_proxy::protocols::xdg_shell::xdg_wm_base::XdgWmBase;

verus! {

/// The values that take the place of those that clients send.
#[derive(Debug)]
pub struct RewriteConfig {
    pub app_id: Option<String>,
    pub title: Option<String>,
}

/// What a `RewriteConfig` says.
#[verifier::ext_equal]
pub struct RewriteView {
    pub app_id: Option<Seq<char>>,
    pub title: Option<Seq<char>>,
}

impl View for RewriteConfig {
    type V = RewriteView;

    open spec fn view(&self) -> RewriteView {
        RewriteView {
            app_id: crate::config::text_of(self.app_id),
            title: crate::config::text_of(self.title),
        }
    }
}

/// A copy of optional text.
pub(crate) fn copy_text(text: &Option<String>) -> (copy: Option<String>)
    ensures
        crate::config::text_of(copy) == crate::config::text_of(*text),
{
    match text {
        Some(text) => Some(text.clone()),
        None => None,
    }
}

impl Clone for RewriteConfig {
    fn clone(&self) -> (copy: Self)
        ensures
            copy@ == self@,
            copy.app_id is Some <==> self.app_id is Some,
            copy.app_id is Some ==> copy.app_id->0@ == self.app_id->0@,
            copy.title is Some <==> self.title is Some,
            copy.title is Some ==> copy.title->0@ == self.title->0@,
    {
        RewriteConfig { app_id: copy_text(&self.app_id), title: copy_text(&self.title) }
    }
}

impl RewriteConfig {
    /// The values that the command line gives; at least one has to be given.
    pub fn from_cli(cli: &Cli) -> (result: Result<Self, ProxyError>)
        ensures
            match result {
                Ok(config) => (cli@.app_id is Some || cli@.title is Some) && config@
                    == (RewriteView { app_id: cli@.app_id, title: cli@.title }),
                Err(error) => cli@.app_id is None && cli@.title is None && error
                    is NoRewriteOption,
            },
            result is Ok <==> cli.app_id is Some || cli.title is Some,
            result matches Ok(config) ==> {
                &&& config.app_id is Some <==> cli.app_id is Some
                &&& config.app_id is Some ==> config.app_id->0@ == cli.app_id->0@
                &&& config.title is Some <==> cli.title is Some
                &&& config.title is Some ==> config.title->0@ == cli.title->0@
            },
    {
        if cli.app_id.is_none() && cli.title.is_none() {
            return Err(ProxyError::NoRewriteOption);
        }
        Ok(RewriteConfig { app_id: copy_text(&cli.app_id), title: copy_text(&cli.title) })
    }
}

/// The kinds of protocol objects that the proxy watches.
pub enum Role {
    Display,
    Registry,
    WmBase,
    Surface,
    Toplevel,
}

/// What watches a protocol object: the kind of the object, and the values to rewrite with.
#[verifier::ext_equal]
pub struct Handler {
    pub role: Role,
    pub rewrite: RewriteView,
}

/// The requests that the proxy tells apart. A request that creates an object stands for what
/// its handler reads of it.
#[verifier::ext_equal]
pub enum Request {
    GetRegistry,
    Bind(Seq<char>),
    GetXdgSurface,
    GetToplevel,
    SetAppId(Seq<char>),
    SetTitle(Seq<char>),
    Other,
}

/// The interface whose objects lead to toplevel windows.
pub open spec fn window_interface() -> Seq<char> {
    "xdg_wm_base"@
}

/// What watches the object that a request creates on a watched object.
pub open spec fn created_handler(handler: Handler, request: Request) -> Option<Handler> {
    let role = match (handler.role, request) {
        (Role::Display, Request::GetRegistry) => Some(Role::Registry),
        (Role::Registry, Request::Bind(interface)) => if interface == window_interface() {
            Some(Role::WmBase)
        } else {
            None
        },
        (Role::WmBase, Request::GetXdgSurface) => Some(Role::Surface),
        (Role::Surface, Request::GetToplevel) => Some(Role::Toplevel),
        _ => None,
    };
    match role {
        Some(role) => Some(Handler { role, rewrite: handler.rewrite }),
        None => None,
    }
}

/// A value, or the configured one where there is one.
pub open spec fn replaced(configured: Option<Seq<char>>, value: Seq<char>) -> Seq<char> {
    match configured {
        Some(text) => text,
        None => value,
    }
}

/// What the compositor gets for a request on an object; `None` stands for an object that is not
/// watched.
pub open spec fn forwarded(handler: Option<Handler>, request: Request) -> Request {
    match (handler, request) {
        (Some(Handler { role: Role::Toplevel, rewrite }), Request::SetAppId(app_id)) =>
            Request::SetAppId(replaced(rewrite.app_id, app_id)),
        (Some(Handler { role: Role::Toplevel, rewrite }), Request::SetTitle(title)) =>
            Request::SetTitle(replaced(rewrite.title, title)),
        _ => request,
    }
}

/// What watches the object at the end of a chain of requests, each on the object that the one
/// before it created.
pub open spec fn handler_after(start: Handler, requests: Seq<Request>) -> Option<Handler>
    decreases requests.len(),
{
    if requests.len() == 0 {
        Some(start)
    } else {
        match handler_after(start, requests.drop_last()) {
            Some(handler) => created_handler(handler, requests.last()),
            None => None,
        }
    }
}

/// Every object of a session is watched with the values that the session started with.
pub proof fn every_handler_has_the_session_values(start: Handler, requests: Seq<Request>)
    ensures
        handler_after(start, requests) matches Some(handler) ==> handler.rewrite == start.rewrite,
    decreases requests.len(),
{
    if requests.len() > 0 {
        every_handler_has_the_session_values(start, requests.drop_last());
    }
}

/// The requests by which a client gets a toplevel window from its display.
pub open spec fn toplevel_requests() -> Seq<Request> {
    seq![
        Request::GetRegistry,
        Request::Bind(window_interface()),
        Request::GetXdgSurface,
        Request::GetToplevel,
    ]
}

/// A toplevel window that a client gets from its display announces the configured application
/// ID and the configured title, and the client's own where none is configured.
pub proof fn toplevels_are_rewritten(rewrite: RewriteView, app_id: Seq<char>, title: Seq<char>)
    ensures
        ({
            let display = Handler { role: Role::Display, rewrite };
            let toplevel = handler_after(display, toplevel_requests());
            &&& forwarded(toplevel, Request::SetAppId(app_id)) == Request::SetAppId(
                replaced(rewrite.app_id, app_id),
            )
            &&& forwarded(toplevel, Request::SetTitle(title)) == Request::SetTitle(
                replaced(rewrite.title, title),
            )
        }),
{
    lemma_toplevel_handler(rewrite);
}

/// Only the application ID and the title of a toplevel window are ever changed, and each only
/// where a value is configured for it; a request never becomes one of another kind. All other
/// traffic passes as it is.
pub proof fn other_requests_pass_unchanged(handler: Option<Handler>, request: Request)
    ensures
        forwarded(handler, request) != request ==> {
            &&& handler matches Some(handler) && handler.role is Toplevel
            &&& request is SetAppId && handler->0.rewrite.app_id is Some || request is SetTitle
                && handler->0.rewrite.title is Some
        },
        forwarded(handler, request) is SetAppId <==> request is SetAppId,
        forwarded(handler, request) is SetTitle <==> request is SetTitle,
{
}

/// The name of the interface that window managers offer toplevel windows through.
///
/// Calls `ObjectInterface::name` on `XdgWmBase::INTERFACE`, which gives `xdg_wm_base`; no other
/// `ObjectInterface` has that name.
#[verifier::external_body]
fn xdg_wm_base_interface() -> (name: &'static str)
    ensures
        name@ == "xdg_wm_base"@,
{
    XdgWmBase::INTERFACE.name()
}

/// Watches the display of a session.
pub struct DisplayProxy {
    pub rewrite: RewriteConfig,
}

impl View for DisplayProxy {
    type V = Handler;

    open spec fn view(&self) -> Handler {
        Handler { role: Role::Display, rewrite: self.rewrite@ }
    }
}

impl DisplayProxy {
    /// What watches the registry that the client asks for. The request is forwarded as it is.
    pub fn handle_get_registry(&self) -> (registry: RegistryProxy)
        ensures
            created_handler(self@, Request::GetRegistry) == Some(registry@),
            registry.rewrite@ == self.rewrite@,
    {
        RegistryProxy { rewrite: self.rewrite.clone() }
    }
}

/// Watches a registry.
pub struct RegistryProxy {
    pub rewrite: RewriteConfig,
}

impl View for RegistryProxy {
    type V = Handler;

    open spec fn view(&self) -> Handler {
        Handler { role: Role::Registry, rewrite: self.rewrite@ }
    }
}

impl RegistryProxy {
    /// What watches the object that the client binds, given the name of the object's interface.
    /// The request is forwarded as it is.
    pub fn handle_bind(&self, interface: &str) -> (wm_base: Option<XdgWmBaseProxy>)
        ensures
            match wm_base {
                Some(wm_base) => created_handler(self@, Request::Bind(interface@)) == Some(
                    wm_base@,
                ),
                None => created_handler(self@, Request::Bind(interface@)) is None,
            },
            wm_base is Some <==> interface@ == "xdg_wm_base"@,
            wm_base matches Some(wm_base) ==> wm_base.rewrite@ == self.rewrite@,
    {
        if same_text(interface, xdg_wm_base_interface()) {
            Some(XdgWmBaseProxy { rewrite: self.rewrite.clone() })
        } else {
            None
        }
    }
}

/// Watches the object that a client creates windows with.
pub struct XdgWmBaseProxy {
    pub rewrite: RewriteConfig,
}

impl View for XdgWmBaseProxy {
    type V = Handler;

    open spec fn view(&self) -> Handler {
        Handler { role: Role::WmBase, rewrite: self.rewrite@ }
    }
}

impl XdgWmBaseProxy {
    /// What watches the window surface that the client asks for. The request is forwarded as it
    /// is.
    pub fn handle_get_xdg_surface(&self) -> (surface: XdgSurfaceProxy)
        ensures
            created_handler(self@, Request::GetXdgSurface) == Some(surface@),
            surface.rewrite@ == self.rewrite@,
    {
        XdgSurfaceProxy { rewrite: self.rewrite.clone() }
    }
}

/// Watches a window surface.
pub struct XdgSurfaceProxy {
    pub rewrite: RewriteConfig,
}

impl View for XdgSurfaceProxy {
    type V = Handler;

    open spec fn view(&self) -> Handler {
        Handler { role: Role::Surface, rewrite: self.rewrite@ }
    }
}

impl XdgSurfaceProxy {
    /// What watches the toplevel window that the client asks for. The request is forwarded as it
    /// is.
    pub fn handle_get_toplevel(&self) -> (toplevel: XdgToplevelProxy)
        ensures
            created_handler(self@, Request::GetToplevel) == Some(toplevel@),
            toplevel.rewrite@ == self.rewrite@,
    {
        XdgToplevelProxy { rewrite: self.rewrite.clone() }
    }
}

/// Watches a toplevel window.
pub struct XdgToplevelProxy {
    pub rewrite: RewriteConfig,
}

impl View for XdgToplevelProxy {
    type V = Handler;

    open spec fn view(&self) -> Handler {
        Handler { role: Role::Toplevel, rewrite: self.rewrite@ }
    }
}

impl XdgToplevelProxy {
    /// The application ID to forward for the one that the client sets.
    pub fn handle_set_app_id<'a>(&'a self, app_id: &'a str) -> (forwarded_app_id: &'a str)
        ensures
            forwarded(Some(self@), Request::SetAppId(app_id@)) == Request::SetAppId(
                forwarded_app_id@,
            ),
            self.rewrite.app_id matches Some(configured) ==> forwarded_app_id@ == configured@,
            self.rewrite.app_id is None ==> forwarded_app_id@ == app_id@,
    {
        match &self.rewrite.app_id {
            Some(configured) => configured.as_str(),
            None => app_id,
        }
    }

    /// The title to forward for the one that the client sets.
    pub fn handle_set_title<'a>(&'a self, title: &'a str) -> (forwarded_title: &'a str)
        ensures
            forwarded(Some(self@), Request::SetTitle(title@)) == Request::SetTitle(
                forwarded_title@,
            ),
            self.rewrite.title matches Some(configured) ==> forwarded_title@ == configured@,
            self.rewrite.title is None ==> forwarded_title@ == title@,
    {
        match &self.rewrite.title {
            Some(configured) => configured.as_str(),
            None => title,
        }
    }
}

/// What a `RewriteConfig` says is what its fields hold, whatever the text.
pub proof fn rewrite_views_are_faithful(config: RewriteConfig)
    ensures
        match config.app_id {
            Some(app_id) => config@.app_id == Some(app_id@),
            None => config@.app_id is None,
        },
        match config.title {
            Some(title) => config@.title == Some(title@),
            None => config@.title is None,
        },
{
}

/// Whatever application ID a client sets on a toplevel window that it got from its display, the
/// compositor gets the configured one where there is one, and the client's own where there is
/// none; the title that is configured plays no part.
pub proof fn app_ids_are_rewritten(
    configured: Seq<char>,
    title: Option<Seq<char>>,
    requested: Seq<char>,
)
    ensures
        ({
            let with = RewriteView { app_id: Some(configured), title };
            let without = RewriteView { app_id: None, title };
            let toplevel = handler_after(
                Handler { role: Role::Display, rewrite: with },
                toplevel_requests(),
            );
            let plain = handler_after(
                Handler { role: Role::Display, rewrite: without },
                toplevel_requests(),
            );
            &&& toplevel == Some(Handler { role: Role::Toplevel, rewrite: with })
            &&& plain == Some(Handler { role: Role::Toplevel, rewrite: without })
            &&& forwarded(toplevel, Request::SetAppId(requested)) == Request::SetAppId(configured)
            &&& forwarded(plain, Request::SetAppId(requested)) == Request::SetAppId(requested)
        }),
{
    lemma_toplevel_handler(RewriteView { app_id: Some(configured), title });
    lemma_toplevel_handler(RewriteView { app_id: None, title });
}

/// Whatever title a client sets on a toplevel window that it got from its display, the compositor
/// gets the configured one where there is one, and the client's own where there is none; the
/// application ID that is configured plays no part.
pub proof fn titles_are_rewritten(
    configured: Seq<char>,
    app_id: Option<Seq<char>>,
    requested: Seq<char>,
)
    ensures
        ({
            let with = RewriteView { app_id, title: Some(configured) };
            let without = RewriteView { app_id, title: None };
            let toplevel = handler_after(
                Handler { role: Role::Display, rewrite: with },
                toplevel_requests(),
            );
            let plain = handler_after(
                Handler { role: Role::Display, rewrite: without },
                toplevel_requests(),
            );
            &&& forwarded(toplevel, Request::SetTitle(requested)) == Request::SetTitle(configured)
            &&& forwarded(plain, Request::SetTitle(requested)) == Request::SetTitle(requested)
        }),
{
    lemma_toplevel_handler(RewriteView { app_id, title: Some(configured) });
    lemma_toplevel_handler(RewriteView { app_id, title: None });
}

proof fn lemma_toplevel_handler(rewrite: RewriteView)
    ensures
        handler_after(Handler { role: Role::Display, rewrite }, toplevel_requests()) == Some(
            Handler { role: Role::Toplevel, rewrite },
        ),
{
    let all = toplevel_requests();
    let three = all.drop_last();
    let two = three.drop_last();
    let one = two.drop_last();
    reveal_with_fuel(handler_after, 5);
    assert(one.drop_last() =~= Seq::<Request>::empty());
    assert(one.last() == Request::GetRegistry);
    assert(two.last() == Request::Bind(window_interface()));
    assert(three.last() == Request::GetXdgSurface);
    assert(all.last() == Request::GetToplevel);
}

/// The way to a toplevel window is the one of the shell protocol: a registry of the display, an
/// object of the interface `xdg_wm_base` bound in it, a surface of that, and a toplevel of that.
pub proof fn windows_come_from_the_shell_protocol()
    ensures
        toplevel_requests().len() == 4,
        toplevel_requests()[0] is GetRegistry,
        toplevel_requests()[1] == Request::Bind("xdg_wm_base"@),
        toplevel_requests()[2] is GetXdgSurface,
        toplevel_requests()[3] is GetToplevel,
{
}

/// Nothing but the objects on the way to a toplevel window is watched, each of them always is, and
/// each with the values of the object that it was created on.
pub proof fn only_the_way_to_windows_is_watched(handler: Handler, request: Request)
    ensures
        ({
            let created = created_handler(handler, request);
            &&& created is Some <==> {
                ||| handler.role is Display && request is GetRegistry
                ||| handler.role is Registry && request == Request::Bind("xdg_wm_base"@)
                ||| handler.role is WmBase && request is GetXdgSurface
                ||| handler.role is Surface && request is GetToplevel
            }
            &&& created matches Some(next) ==> {
                &&& next.rewrite == handler.rewrite
                &&& next.role is Registry <==> handler.role is Display
                &&& next.role is WmBase <==> handler.role is Registry
                &&& next.role is Surface <==> handler.role is WmBase
                &&& next.role is Toplevel <==> handler.role is Surface
            }
        }),
{
}

/// What watches an object is of the object's own kind, and has the values of its own field.
pub proof fn handler_views_are_faithful(
    display: DisplayProxy,
    registry: RegistryProxy,
    wm_base: XdgWmBaseProxy,
    surface: XdgSurfaceProxy,
    toplevel: XdgToplevelProxy,
)
    ensures
        display@.role is Display && display@.rewrite == display.rewrite@,
        registry@.role is Registry && registry@.rewrite == registry.rewrite@,
        wm_base@.role is WmBase && wm_base@.rewrite == wm_base.rewrite@,
        surface@.role is Surface && surface@.rewrite == surface.rewrite@,
        toplevel@.role is Toplevel && toplevel@.rewrite == toplevel.rewrite@,
{
}

} // verus!
