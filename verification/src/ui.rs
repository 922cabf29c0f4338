//! The attributes the external inspector filters and renders by: the
//! content categories and the detail tabs. The classification logic
//! itself lives in the inspector; the core only exposes the closed sets.

use vstd::prelude::*;

verus! {

/// The content categories a capture can be filtered by.
#[derive(Clone, Copy, PartialEq, Eq, Structural, Debug)]
pub enum FilterMode {
    NoFilter,
    XHR,
    Document,
    Css,
    Js,
    Font,
    Image,
    Media,
    Ws,
}

impl FilterMode {
    /// Every category, in its fixed order.
    pub fn modes() -> (r: Vec<FilterMode>)
        ensures
            r@ == seq![
                FilterMode::NoFilter,
                FilterMode::XHR,
                FilterMode::Document,
                FilterMode::Css,
                FilterMode::Js,
                FilterMode::Font,
                FilterMode::Image,
                FilterMode::Media,
                FilterMode::Ws,
            ],
    {
        let r: Vec<FilterMode> = vec![
            FilterMode::NoFilter,
            FilterMode::XHR,
            FilterMode::Document,
            FilterMode::Css,
            FilterMode::Js,
            FilterMode::Font,
            FilterMode::Image,
            FilterMode::Media,
            FilterMode::Ws,
        ];
        proof {
            assert(r@ =~= seq![
                FilterMode::NoFilter,
                FilterMode::XHR,
                FilterMode::Document,
                FilterMode::Css,
                FilterMode::Js,
                FilterMode::Font,
                FilterMode::Image,
                FilterMode::Media,
                FilterMode::Ws,
            ]);
        }
        r
    }
}

/// The detail tabs of one captured exchange.
#[derive(Clone, Copy, PartialEq, Eq, Structural, Debug)]
pub enum ProxyTab {
    Header,
    Param,
    PreView,
    Cookie,
    ReqRaw,
    RespRaw,
}

impl ProxyTab {
    /// Every tab, in its fixed order.
    pub fn tabs() -> (r: Vec<ProxyTab>)
        ensures
            r@ == seq![
                ProxyTab::Header,
                ProxyTab::Param,
                ProxyTab::PreView,
                ProxyTab::Cookie,
                ProxyTab::ReqRaw,
                ProxyTab::RespRaw,
            ],
    {
        let r: Vec<ProxyTab> = vec![
            ProxyTab::Header,
            ProxyTab::Param,
            ProxyTab::PreView,
            ProxyTab::Cookie,
            ProxyTab::ReqRaw,
            ProxyTab::RespRaw,
        ];
        proof {
            assert(r@ =~= seq![
                ProxyTab::Header,
                ProxyTab::Param,
                ProxyTab::PreView,
                ProxyTab::Cookie,
                ProxyTab::ReqRaw,
                ProxyTab::RespRaw,
            ]);
        }
        r
    }
}

} // verus!
