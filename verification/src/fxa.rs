//! Which account server an application talks to, and with which identity.

use crate::outside::{origin_of, url_origin};
use crate::store::{opt_text, str_eq};
use vstd::prelude::*;

verus! {

/// An account server: one of the known ones, or one named by its URL.
#[derive(Clone, Debug, PartialEq, Eq)]
pub enum FxaServer {
    Release,
    Stable,
    Stage,
    China,
    LocalDev,
    Custom { url: String },
}

/// An account server as plain values.
pub enum FxaServerView {
    Release,
    Stable,
    Stage,
    China,
    LocalDev,
    Custom { url: Seq<char> },
}

impl View for FxaServer {
    type V = FxaServerView;

    open spec fn view(&self) -> FxaServerView {
        match self {
            FxaServer::Release => FxaServerView::Release,
            FxaServer::Stable => FxaServerView::Stable,
            FxaServer::Stage => FxaServerView::Stage,
            FxaServer::China => FxaServerView::China,
            FxaServer::LocalDev => FxaServerView::LocalDev,
            FxaServer::Custom { url } => FxaServerView::Custom { url: url@ },
        }
    }
}

impl FxaServerView {
    /// The URL under which the server offers its content.
    pub open spec fn content_url(self) -> Seq<char> {
        match self {
            FxaServerView::Release => "https://accounts.firefox.com"@,
            FxaServerView::Stable => "https://stable.dev.lcip.org"@,
            FxaServerView::Stage => "https://accounts.stage.mozaws.net"@,
            FxaServerView::China => "https://accounts.firefox.com.cn"@,
            FxaServerView::LocalDev => "http://127.0.0.1:3030"@,
            FxaServerView::Custom { url } => url,
        }
    }

    /// The name of the kind of server, which gives away no custom URL.
    pub open spec fn name(self) -> Seq<char> {
        match self {
            FxaServerView::Release => "Release"@,
            FxaServerView::Stable => "Stable"@,
            FxaServerView::Stage => "Stage"@,
            FxaServerView::China => "China"@,
            FxaServerView::LocalDev => "LocalDev"@,
            FxaServerView::Custom { .. } => "Custom"@,
        }
    }

    /// The server of an origin: the known server whose content URL is the
    /// origin, or else a custom server at the origin.
    pub open spec fn of_origin(origin: Seq<char>) -> FxaServerView {
        if origin == FxaServerView::Release.content_url() {
            FxaServerView::Release
        } else if origin == FxaServerView::Stable.content_url() {
            FxaServerView::Stable
        } else if origin == FxaServerView::Stage.content_url() {
            FxaServerView::Stage
        } else if origin == FxaServerView::China.content_url() {
            FxaServerView::China
        } else if origin == FxaServerView::LocalDev.content_url() {
            FxaServerView::LocalDev
        } else {
            FxaServerView::Custom { url: origin }
        }
    }
}

impl FxaServer {
    /// The URL under which the server offers its content.
    pub fn content_url(&self) -> (r: &str)
        ensures
            r@ == self@.content_url(),
    {
        match self {
            FxaServer::Release => "https://accounts.firefox.com",
            FxaServer::Stable => "https://stable.dev.lcip.org",
            FxaServer::Stage => "https://accounts.stage.mozaws.net",
            FxaServer::China => "https://accounts.firefox.com.cn",
            FxaServer::LocalDev => "http://127.0.0.1:3030",
            FxaServer::Custom { url } => url.as_str(),
        }
    }

    /// The name of the kind of server. It does not show the URL of a custom
    /// server, so it can go into reports.
    pub fn name(&self) -> (r: &'static str)
        ensures
            r@ == self@.name(),
    {
        match self {
            FxaServer::Release => "Release",
            FxaServer::Stable => "Stable",
            FxaServer::Stage => "Stage",
            FxaServer::China => "China",
            FxaServer::LocalDev => "LocalDev",
            FxaServer::Custom { .. } => "Custom",
        }
    }

    /// The server of an origin in its ASCII form.
    pub fn from_origin(origin: &str) -> (r: FxaServer)
        ensures
            r@ == FxaServerView::of_origin(origin@),
    {
        if str_eq(origin, FxaServer::Release.content_url()) {
            FxaServer::Release
        } else if str_eq(origin, FxaServer::Stable.content_url()) {
            FxaServer::Stable
        } else if str_eq(origin, FxaServer::Stage.content_url()) {
            FxaServer::Stage
        } else if str_eq(origin, FxaServer::China.content_url()) {
            FxaServer::China
        } else if str_eq(origin, FxaServer::LocalDev.content_url()) {
            FxaServer::LocalDev
        } else {
            FxaServer::Custom { url: origin.to_owned() }
        }
    }

    /// The server that the URL `href` belongs to, by its origin; nothing
    /// where the text is no absolute URL.
    pub fn from_url(href: &str) -> (r: Option<FxaServer>)
        ensures
            match url_origin(href@) {
                Some(origin) => r matches Some(server) && server@ == FxaServerView::of_origin(
                    origin,
                ),
                None => r is None,
            },
    {
        match origin_of(href) {
            Some(origin) => Some(FxaServer::from_origin(origin.as_str())),
            None => None,
        }
    }
}

/// How an application identifies itself to an account server.
#[derive(Clone, Debug)]
pub struct FxaConfig {
    /// The server to connect with.
    pub server: FxaServer,
    /// The registered OAuth client id of the application.
    pub client_id: String,
    /// The registered OAuth redirect URI of the application.
    pub redirect_uri: String,
    /// URL of the user's token server, for those who host their sync data
    /// themselves; the hosted one is used where none is given.
    pub token_server_url_override: Option<String>,
}

/// A configuration as plain values.
pub struct FxaConfigView {
    pub server: FxaServerView,
    pub client_id: Seq<char>,
    pub redirect_uri: Seq<char>,
    pub token_server_url_override: Option<Seq<char>>,
}

impl View for FxaConfig {
    type V = FxaConfigView;

    open spec fn view(&self) -> FxaConfigView {
        FxaConfigView {
            server: self.server@,
            client_id: self.client_id@,
            redirect_uri: self.redirect_uri@,
            token_server_url_override: opt_text(self.token_server_url_override),
        }
    }
}

/// The configuration for `server` with no token server of the user's own.
pub open spec fn config_for(
    server: FxaServerView,
    client_id: Seq<char>,
    redirect_uri: Seq<char>,
) -> FxaConfigView {
    FxaConfigView { server, client_id, redirect_uri, token_server_url_override: None }
}

impl FxaConfig {
    pub fn release(client_id: &str, redirect_uri: &str) -> (r: FxaConfig)
        ensures
            r@ == config_for(FxaServerView::Release, client_id@, redirect_uri@),
    {
        FxaConfig {
            server: FxaServer::Release,
            client_id: client_id.to_owned(),
            redirect_uri: redirect_uri.to_owned(),
            token_server_url_override: None,
        }
    }

    pub fn stable(client_id: &str, redirect_uri: &str) -> (r: FxaConfig)
        ensures
            r@ == config_for(FxaServerView::Stable, client_id@, redirect_uri@),
    {
        FxaConfig {
            server: FxaServer::Stable,
            client_id: client_id.to_owned(),
            redirect_uri: redirect_uri.to_owned(),
            token_server_url_override: None,
        }
    }

    pub fn stage(client_id: &str, redirect_uri: &str) -> (r: FxaConfig)
        ensures
            r@ == config_for(FxaServerView::Stage, client_id@, redirect_uri@),
    {
        FxaConfig {
            server: FxaServer::Stage,
            client_id: client_id.to_owned(),
            redirect_uri: redirect_uri.to_owned(),
            token_server_url_override: None,
        }
    }

    pub fn china(client_id: &str, redirect_uri: &str) -> (r: FxaConfig)
        ensures
            r@ == config_for(FxaServerView::China, client_id@, redirect_uri@),
    {
        FxaConfig {
            server: FxaServer::China,
            client_id: client_id.to_owned(),
            redirect_uri: redirect_uri.to_owned(),
            token_server_url_override: None,
        }
    }

    pub fn dev(client_id: &str, redirect_uri: &str) -> (r: FxaConfig)
        ensures
            r@ == config_for(FxaServerView::LocalDev, client_id@, redirect_uri@),
    {
        FxaConfig {
            server: FxaServer::LocalDev,
            client_id: client_id.to_owned(),
            redirect_uri: redirect_uri.to_owned(),
            token_server_url_override: None,
        }
    }
}

} // verus!
