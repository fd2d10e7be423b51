//! The client: credentials, header construction, and one request builder per
//! endpoint, plus the session token lifecycle.
//!
//! The client owns the credential pair by value. Every outgoing request
//! derives its authorization header from the credentials at dispatch time;
//! the stored access token is written only by the session operations, and
//! only after a fully decoded successful handshake.

use vstd::prelude::*;
use vstd::string::StringExecFns;
use crate::errors::KiteError;
use crate::strutil::{pairs_view, push_char};
use crate::urls::{
    url_spec, valid_origin, valid_path, origin_shape, parse_url_spec, compose_url,
    origin_is_valid, lemma_url_round_trip,
};
use crate::request::{Method, Request, opt_pair, push_pair, push_opt};
use crate::checksum::{checksum_input, native_checksum, sha256_hex_of};
use crate::jsonio::{
    json_accepts, json_of, session_token_of, renewal_token_of, parse_json,
    extract_session_token, extract_renewal_token,
};
use crate::{is_success_status, status_is_success};

verus! {

/// The API client. Holds the credential pair and the base origin; nothing
/// else. Safe to duplicate: each copy owns its snapshot of the credentials.
#[derive(Clone, Debug)]
pub struct KiteConnect {
    api_key: String,
    access_token: String,
    root: String,
}

impl Default for KiteConnect {
    /// A client with stand-in credentials on the production origin.
    fn default() -> (r: KiteConnect)
        ensures
            r.spec_api_key() == "<API-KEY>"@,
            r.spec_access_token() == "<ACCESS-TOKEN>"@,
            r.spec_root() == "https://api.kite.trade"@,
            r.wf(),
    {
        KiteConnect::new("<API-KEY>", "<ACCESS-TOKEN>")
    }
}

impl KiteConnect {
    /// The API key this client authenticates with.
    pub closed spec fn spec_api_key(&self) -> Seq<char> {
        self.api_key@
    }

    /// The access token currently held; the most recently set value.
    pub closed spec fn spec_access_token(&self) -> Seq<char> {
        self.access_token@
    }

    /// The base origin every request URL starts with.
    pub closed spec fn spec_root(&self) -> Seq<char> {
        self.root@
    }

    /// A well-formed client: its base origin is a well-formed origin, so
    /// every built URL parses back (see `urls::lemma_url_round_trip`).
    pub open spec fn wf(&self) -> bool {
        valid_origin(self.spec_root())
    }

    /// A new client for the production origin. The access token may be empty
    /// until a session is generated.
    pub fn new(api_key: &str, access_token: &str) -> (r: KiteConnect)
        ensures
            r.spec_api_key() == api_key@,
            r.spec_access_token() == access_token@,
            r.spec_root() == "https://api.kite.trade"@,
            r.wf(),
    {
        let c = KiteConnect {
            api_key: api_key.to_owned(),
            access_token: access_token.to_owned(),
            root: String::from_str("https://api.kite.trade"),
        };
        proof {
            reveal_strlit("https://api.kite.trade");
            assert(origin_shape("https://api.kite.trade"@, 5));
        }
        c
    }

    /// Replaces the base origin when the given one is well-formed; keeps the
    /// old one otherwise. Lets tests point the client at any server.
    pub fn set_root(&mut self, root: &str) -> (r: bool)
        ensures
            r == valid_origin(root@),
            r ==> final(self).spec_root() == root@,
            !r ==> final(self).spec_root() == old(self).spec_root(),
            final(self).spec_api_key() == old(self).spec_api_key(),
            final(self).spec_access_token() == old(self).spec_access_token(),
            old(self).wf() ==> final(self).wf(),
    {
        if origin_is_valid(root) {
            self.root = root.to_owned();
            true
        } else {
            false
        }
    }

    /// Installs an access token. The session operations call this only after
    /// a fully decoded successful handshake; nothing else writes the token.
    pub fn set_access_token(&mut self, access_token: &str)
        ensures
            final(self).spec_access_token() == access_token@,
            final(self).spec_api_key() == old(self).spec_api_key(),
            final(self).spec_root() == old(self).spec_root(),
    {
        self.access_token = access_token.to_owned();
    }

    /// The access token currently held.
    pub fn access_token(&self) -> (r: &str)
        ensures
            r@ == self.spec_access_token(),
    {
        self.access_token.as_str()
    }

    /// The login page URL a user visits to obtain a request token.
    pub fn login_url(&self) -> (r: String)
        ensures
            r@ == "https://kite.trade/connect/login?api_key="@ + self.spec_api_key() + "&v3"@,
    {
        let mut out = String::from_str("https://kite.trade/connect/login?api_key=");
        out.append(self.api_key.as_str());
        out.append("&v3");
        out
    }

    /// Composes the URL for a path and optional ordered query pairs against
    /// this client's base origin. Repeated query keys keep their order.
    pub fn build_url(&self, path: &str, params: Option<&Vec<(String, String)>>) -> (r: String)
        ensures
            r@ == url_spec(
                self.spec_root(),
                path@,
                match params {
                    Some(q) => pairs_view(q@),
                    None => Seq::empty(),
                },
            ),
    {
        match params {
            Some(q) => compose_url(self.root.as_str(), path, q),
            None => {
                let q0: Vec<(String, String)> = Vec::new();
                let r = compose_url(self.root.as_str(), path, &q0);
                proof {
                    assert(pairs_view(q0@) =~= Seq::<(Seq<char>, Seq<char>)>::empty());
                }
                r
            },
        }
    }

    /// The three headers every call carries: the protocol version marker, the
    /// authorization header `token <api_key>:<access_token>` derived from the
    /// credentials now held, and the client identifier.
    pub fn request_headers(&self) -> (r: Vec<(String, String)>)
        ensures
            r@.len() == 3,
            r@[0].0@ == "XKiteVersion"@ && r@[0].1@ == "3"@,
            r@[1].0@ == "Authorization"@ && r@[1].1@ == "token "@ + self.spec_api_key() + seq![':']
                + self.spec_access_token(),
            r@[2].0@ == "User-Agent"@ && r@[2].1@ == "Rust"@,
    {
        let mut auth = String::from_str("token ");
        auth.append(self.api_key.as_str());
        push_char(&mut auth, ':');
        auth.append(self.access_token.as_str());
        let mut r: Vec<(String, String)> = Vec::new();
        r.push(("XKiteVersion".to_owned(), "3".to_owned()));
        r.push(("Authorization".to_owned(), auth));
        r.push(("User-Agent".to_owned(), "Rust".to_owned()));
        r
    }

    /// A GET request with no body parameters.
    fn get_request(&self, path: &str) -> (r: Request)
        ensures
            r.method is Get,
            r.url@ == url_spec(self.spec_root(), path@, Seq::empty()),
            r.params@.len() == 0,
    {
        let q0: Vec<(String, String)> = Vec::new();
        let url = compose_url(self.root.as_str(), path, &q0);
        proof {
            assert(pairs_view(q0@) =~= Seq::<(Seq<char>, Seq<char>)>::empty());
        }
        Request { url, method: Method::Get, params: Vec::new() }
    }

    /// The margins read: all segments, or one named segment.
    pub fn margins_request(&self, segment: Option<&str>) -> (r: Request)
        ensures
            r.method is Get,
            r.url@ == url_spec(self.spec_root(), margins_path(segment), Seq::empty()),
            r.params@.len() == 0,
    {
        match segment {
            Some(s) => {
                let mut p = String::from_str("/user/margins/");
                p.append(s);
                self.get_request(p.as_str())
            },
            None => self.get_request("/user/margins"),
        }
    }

    /// The profile read.
    pub fn profile_request(&self) -> (r: Request)
        ensures
            r.method is Get,
            r.url@ == url_spec(self.spec_root(), "/user/profile"@, Seq::empty()),
            r.params@.len() == 0,
    {
        self.get_request("/user/profile")
    }

    /// The holdings read.
    pub fn holdings_request(&self) -> (r: Request)
        ensures
            r.method is Get,
            r.url@ == url_spec(self.spec_root(), "/portfolio/holdings"@, Seq::empty()),
            r.params@.len() == 0,
    {
        self.get_request("/portfolio/holdings")
    }

    /// The positions read.
    pub fn positions_request(&self) -> (r: Request)
        ensures
            r.method is Get,
            r.url@ == url_spec(self.spec_root(), "/portfolio/positions"@, Seq::empty()),
            r.params@.len() == 0,
    {
        self.get_request("/portfolio/positions")
    }

    /// The day's orders read.
    pub fn orders_request(&self) -> (r: Request)
        ensures
            r.method is Get,
            r.url@ == url_spec(self.spec_root(), "/orders"@, Seq::empty()),
            r.params@.len() == 0,
    {
        self.get_request("/orders")
    }

    /// The day's trades read.
    pub fn trades_request(&self) -> (r: Request)
        ensures
            r.method is Get,
            r.url@ == url_spec(self.spec_root(), "/trades"@, Seq::empty()),
            r.params@.len() == 0,
    {
        self.get_request("/trades")
    }

    /// The order-history read: a GET on the orders path with the order id as
    /// a query parameter.
    pub fn order_history_request(&self, order_id: &str) -> (r: Request)
        ensures
            r.method is Get,
            r.url@ == url_spec(
                self.spec_root(),
                "/orders"@,
                seq![("order_id"@, order_id@)],
            ),
            r.params@.len() == 0,
    {
        let mut q: Vec<(String, String)> = Vec::new();
        q.push(("order_id".to_owned(), order_id.to_owned()));
        let url = compose_url(self.root.as_str(), "/orders", &q);
        proof {
            assert(pairs_view(q@) =~= seq![("order_id"@, order_id@)]);
        }
        Request { url, method: Method::Get, params: Vec::new() }
    }

    /// The trades of one order.
    pub fn order_trades_request(&self, order_id: &str) -> (r: Request)
        ensures
            r.method is Get,
            r.url@ == url_spec(
                self.spec_root(),
                "/orders/"@ + order_id@ + "/trades"@,
                Seq::empty(),
            ),
            r.params@.len() == 0,
    {
        let mut p = String::from_str("/orders/");
        p.append(order_id);
        p.append("/trades");
        self.get_request(p.as_str())
    }

    /// The mutual-fund orders read: all, or one by id.
    pub fn mf_orders_request(&self, order_id: Option<&str>) -> (r: Request)
        ensures
            r.method is Get,
            r.url@ == url_spec(self.spec_root(), mf_orders_path(order_id), Seq::empty()),
            r.params@.len() == 0,
    {
        match order_id {
            Some(id) => {
                let mut p = String::from_str("/mf/orders/");
                p.append(id);
                self.get_request(p.as_str())
            },
            None => self.get_request("/mf/orders"),
        }
    }

    /// The instrument-list read: all exchanges, or one.
    pub fn instruments_request(&self, exchange: Option<&str>) -> (r: Request)
        ensures
            r.method is Get,
            r.url@ == url_spec(self.spec_root(), instruments_path(exchange), Seq::empty()),
            r.params@.len() == 0,
    {
        match exchange {
            Some(ex) => {
                let mut p = String::from_str("/instruments/");
                p.append(ex);
                self.get_request(p.as_str())
            },
            None => self.get_request("/instruments"),
        }
    }

    /// The mutual-fund instrument-list read.
    pub fn mf_instruments_request(&self) -> (r: Request)
        ensures
            r.method is Get,
            r.url@ == url_spec(self.spec_root(), "/mf/instruments"@, Seq::empty()),
            r.params@.len() == 0,
    {
        self.get_request("/mf/instruments")
    }

    /// The trigger-range read: the transaction type, then one repeated
    /// `instruments` query key per instrument, in the given order.
    pub fn trigger_range_request(&self, transaction_type: &str, instruments: &Vec<String>) -> (r:
        Request)
        ensures
            r.method is Get,
            r.url@ == url_spec(
                self.spec_root(),
                "/instruments/trigger_range"@,
                seq![("transaction_type"@, transaction_type@)] + Seq::new(
                    instruments@.len(),
                    |i: int| ("instruments"@, instruments@[i]@),
                ),
            ),
            r.params@.len() == 0,
    {
        let ghost qspec = seq![("transaction_type"@, transaction_type@)] + Seq::new(
            instruments@.len(),
            |i: int| ("instruments"@, instruments@[i]@),
        );
        let mut q: Vec<(String, String)> = Vec::new();
        q.push(("transaction_type".to_owned(), transaction_type.to_owned()));
        let mut i: usize = 0;
        proof {
            assert(pairs_view(q@) =~= qspec.subrange(0, 1));
        }
        while i < instruments.len()
            invariant
                0 <= i <= instruments@.len(),
                qspec == seq![("transaction_type"@, transaction_type@)] + Seq::new(
                    instruments@.len(),
                    |j: int| ("instruments"@, instruments@[j]@),
                ),
                pairs_view(q@) == qspec.subrange(0, i as int + 1),
            decreases instruments@.len() - i,
        {
            let ghost pv_old = pairs_view(q@);
            q.push(("instruments".to_owned(), instruments[i].clone()));
            proof {
                assert(pairs_view(q@) =~= pv_old.push(("instruments"@, instruments@[i as int]@)));
                assert(qspec[i as int + 1] == ("instruments"@, instruments@[i as int]@));
                assert(pv_old.push(qspec[i as int + 1]) =~= qspec.subrange(0, i as int + 2));
            }
            i = i + 1;
        }
        proof {
            assert(qspec.subrange(0, i as int + 1) =~= qspec);
        }
        let url = compose_url(self.root.as_str(), "/instruments/trigger_range", &q);
        Request { url, method: Method::Get, params: Vec::new() }
    }

    /// Places an order: the five required fields, then each present optional,
    /// in a fixed order; absent optionals are omitted entirely.
    pub fn place_order_request(
        &self,
        variety: &str,
        exchange: &str,
        tradingsymbol: &str,
        transaction_type: &str,
        quantity: &str,
        product: Option<&str>,
        order_type: Option<&str>,
        price: Option<&str>,
        validity: Option<&str>,
        disclosed_quantity: Option<&str>,
        trigger_price: Option<&str>,
        squareoff: Option<&str>,
        stoploss: Option<&str>,
        trailing_stoploss: Option<&str>,
        tag: Option<&str>,
    ) -> (r: Request)
        ensures
            r.method is Post,
            r.url@ == url_spec(self.spec_root(), "/orders/"@ + variety@, Seq::empty()),
            pairs_view(r.params@) == seq![
                ("variety"@, variety@),
                ("exchange"@, exchange@),
                ("tradingsymbol"@, tradingsymbol@),
                ("transaction_type"@, transaction_type@),
                ("quantity"@, quantity@),
            ] + opt_pair("product"@, product) + opt_pair("order_type"@, order_type) + opt_pair(
                "price"@,
                price,
            ) + opt_pair("validity"@, validity) + opt_pair(
                "disclosed_quantity"@,
                disclosed_quantity,
            ) + opt_pair("trigger_price"@, trigger_price) + opt_pair("squareoff"@, squareoff)
                + opt_pair("stoploss"@, stoploss) + opt_pair(
                "trailing_stoploss"@,
                trailing_stoploss,
            ) + opt_pair("tag"@, tag),
    {
        let mut params: Vec<(String, String)> = Vec::new();
        push_pair(&mut params, "variety", variety);
        push_pair(&mut params, "exchange", exchange);
        push_pair(&mut params, "tradingsymbol", tradingsymbol);
        push_pair(&mut params, "transaction_type", transaction_type);
        push_pair(&mut params, "quantity", quantity);
        proof {
            assert(pairs_view(params@) =~= seq![
                ("variety"@, variety@),
                ("exchange"@, exchange@),
                ("tradingsymbol"@, tradingsymbol@),
                ("transaction_type"@, transaction_type@),
                ("quantity"@, quantity@),
            ]);
        }
        push_opt(&mut params, "product", product);
        push_opt(&mut params, "order_type", order_type);
        push_opt(&mut params, "price", price);
        push_opt(&mut params, "validity", validity);
        push_opt(&mut params, "disclosed_quantity", disclosed_quantity);
        push_opt(&mut params, "trigger_price", trigger_price);
        push_opt(&mut params, "squareoff", squareoff);
        push_opt(&mut params, "stoploss", stoploss);
        push_opt(&mut params, "trailing_stoploss", trailing_stoploss);
        push_opt(&mut params, "tag", tag);
        let mut p = String::from_str("/orders/");
        p.append(variety);
        let q0: Vec<(String, String)> = Vec::new();
        let url = compose_url(self.root.as_str(), p.as_str(), &q0);
        proof {
            assert(pairs_view(q0@) =~= Seq::<(Seq<char>, Seq<char>)>::empty());
        }
        Request { url, method: Method::Post, params }
    }

    /// Modifies an open order: the two identifying fields, then each present
    /// optional, in a fixed order.
    pub fn modify_order_request(
        &self,
        order_id: &str,
        variety: &str,
        quantity: Option<&str>,
        price: Option<&str>,
        order_type: Option<&str>,
        validity: Option<&str>,
        disclosed_quantity: Option<&str>,
        trigger_price: Option<&str>,
        parent_order_id: Option<&str>,
    ) -> (r: Request)
        ensures
            r.method is Put,
            r.url@ == url_spec(
                self.spec_root(),
                "/orders/"@ + variety@ + seq!['/'] + order_id@,
                Seq::empty(),
            ),
            pairs_view(r.params@) == seq![("order_id"@, order_id@), ("variety"@, variety@)]
                + opt_pair("quantity"@, quantity) + opt_pair("price"@, price) + opt_pair(
                "order_type"@,
                order_type,
            ) + opt_pair("validity"@, validity) + opt_pair(
                "disclosed_quantity"@,
                disclosed_quantity,
            ) + opt_pair("trigger_price"@, trigger_price) + opt_pair(
                "parent_order_id"@,
                parent_order_id,
            ),
    {
        let mut params: Vec<(String, String)> = Vec::new();
        push_pair(&mut params, "order_id", order_id);
        push_pair(&mut params, "variety", variety);
        proof {
            assert(pairs_view(params@) =~= seq![
                ("order_id"@, order_id@),
                ("variety"@, variety@),
            ]);
        }
        push_opt(&mut params, "quantity", quantity);
        push_opt(&mut params, "price", price);
        push_opt(&mut params, "order_type", order_type);
        push_opt(&mut params, "validity", validity);
        push_opt(&mut params, "disclosed_quantity", disclosed_quantity);
        push_opt(&mut params, "trigger_price", trigger_price);
        push_opt(&mut params, "parent_order_id", parent_order_id);
        let url = self.order_item_url(variety, order_id);
        Request { url, method: Method::Put, params }
    }

    /// Cancels an order: a DELETE on the order's path, identifying fields in
    /// the body, the parent id only when present.
    pub fn cancel_order_request(
        &self,
        order_id: &str,
        variety: &str,
        parent_order_id: Option<&str>,
    ) -> (r: Request)
        ensures
            r.method is Delete,
            r.url@ == url_spec(
                self.spec_root(),
                "/orders/"@ + variety@ + seq!['/'] + order_id@,
                Seq::empty(),
            ),
            pairs_view(r.params@) == seq![("order_id"@, order_id@), ("variety"@, variety@)]
                + opt_pair("parent_order_id"@, parent_order_id),
    {
        let mut params: Vec<(String, String)> = Vec::new();
        push_pair(&mut params, "order_id", order_id);
        push_pair(&mut params, "variety", variety);
        proof {
            assert(pairs_view(params@) =~= seq![
                ("order_id"@, order_id@),
                ("variety"@, variety@),
            ]);
        }
        push_opt(&mut params, "parent_order_id", parent_order_id);
        let url = self.order_item_url(variety, order_id);
        Request { url, method: Method::Delete, params }
    }

    /// Exits a cover or bracket order; on the wire this is the cancel call.
    pub fn exit_order_request(
        &self,
        order_id: &str,
        variety: &str,
        parent_order_id: Option<&str>,
    ) -> (r: Request)
        ensures
            r.method is Delete,
            r.url@ == url_spec(
                self.spec_root(),
                "/orders/"@ + variety@ + seq!['/'] + order_id@,
                Seq::empty(),
            ),
            pairs_view(r.params@) == seq![("order_id"@, order_id@), ("variety"@, variety@)]
                + opt_pair("parent_order_id"@, parent_order_id),
    {
        self.cancel_order_request(order_id, variety, parent_order_id)
    }

    /// Converts an open position's product type: a PUT with all seven fields.
    pub fn convert_position_request(
        &self,
        exchange: &str,
        tradingsymbol: &str,
        transaction_type: &str,
        position_type: &str,
        quantity: &str,
        old_product: &str,
        new_product: &str,
    ) -> (r: Request)
        ensures
            r.method is Put,
            r.url@ == url_spec(self.spec_root(), "/portfolio/positions"@, Seq::empty()),
            pairs_view(r.params@) == seq![
                ("exchange"@, exchange@),
                ("tradingsymbol"@, tradingsymbol@),
                ("transaction_type"@, transaction_type@),
                ("position_type"@, position_type@),
                ("quantity"@, quantity@),
                ("old_product"@, old_product@),
                ("new_product"@, new_product@),
            ],
    {
        let mut params: Vec<(String, String)> = Vec::new();
        push_pair(&mut params, "exchange", exchange);
        push_pair(&mut params, "tradingsymbol", tradingsymbol);
        push_pair(&mut params, "transaction_type", transaction_type);
        push_pair(&mut params, "position_type", position_type);
        push_pair(&mut params, "quantity", quantity);
        push_pair(&mut params, "old_product", old_product);
        push_pair(&mut params, "new_product", new_product);
        proof {
            assert(pairs_view(params@) =~= seq![
                ("exchange"@, exchange@),
                ("tradingsymbol"@, tradingsymbol@),
                ("transaction_type"@, transaction_type@),
                ("position_type"@, position_type@),
                ("quantity"@, quantity@),
                ("old_product"@, old_product@),
                ("new_product"@, new_product@),
            ]);
        }
        let q0: Vec<(String, String)> = Vec::new();
        let url = compose_url(self.root.as_str(), "/portfolio/positions", &q0);
        proof {
            assert(pairs_view(q0@) =~= Seq::<(Seq<char>, Seq<char>)>::empty());
        }
        Request { url, method: Method::Put, params }
    }

    /// The URL of one order: `/orders/<variety>/<order_id>`.
    fn order_item_url(&self, variety: &str, order_id: &str) -> (r: String)
        ensures
            r@ == url_spec(
                self.spec_root(),
                "/orders/"@ + variety@ + seq!['/'] + order_id@,
                Seq::empty(),
            ),
    {
        let mut p = String::from_str("/orders/");
        p.append(variety);
        push_char(&mut p, '/');
        p.append(order_id);
        let q0: Vec<(String, String)> = Vec::new();
        let url = compose_url(self.root.as_str(), p.as_str(), &q0);
        proof {
            assert(pairs_view(q0@) =~= Seq::<(Seq<char>, Seq<char>)>::empty());
        }
        url
    }

    /// The token-exchange request: POSTs the api key, the request token, and
    /// the checksum over `api_key ∥ request_token ∥ api_secret`, computed by
    /// the native backend.
    pub fn generate_session_request(&self, request_token: &str, api_secret: &str) -> (r: Request)
        ensures
            r.method is Post,
            r.url@ == url_spec(self.spec_root(), "/session/token"@, Seq::empty()),
            pairs_view(r.params@) == seq![
                ("api_key"@, self.spec_api_key()),
                ("request_token"@, request_token@),
                ("checksum"@, sha256_hex_of(self.spec_api_key() + request_token@ + api_secret@)),
            ],
    {
        let input = checksum_input(self.api_key.as_str(), request_token, api_secret);
        let checksum = native_checksum(input.as_str());
        self.generate_session_request_with_checksum(request_token, checksum.as_str())
    }

    /// The token-exchange request with a caller-supplied checksum text, for
    /// the host-crypto backend: the caller obtains the digest from the host
    /// subsystem and renders it with `checksum::checksum_from_host`.
    pub fn generate_session_request_with_checksum(
        &self,
        request_token: &str,
        checksum: &str,
    ) -> (r: Request)
        ensures
            r.method is Post,
            r.url@ == url_spec(self.spec_root(), "/session/token"@, Seq::empty()),
            pairs_view(r.params@) == seq![
                ("api_key"@, self.spec_api_key()),
                ("request_token"@, request_token@),
                ("checksum"@, checksum@),
            ],
    {
        let mut params: Vec<(String, String)> = Vec::new();
        push_pair(&mut params, "api_key", self.api_key.as_str());
        push_pair(&mut params, "request_token", request_token);
        push_pair(&mut params, "checksum", checksum);
        proof {
            assert(pairs_view(params@) =~= seq![
                ("api_key"@, self.spec_api_key()),
                ("request_token"@, request_token@),
                ("checksum"@, checksum@),
            ]);
        }
        let q0: Vec<(String, String)> = Vec::new();
        let url = compose_url(self.root.as_str(), "/session/token", &q0);
        proof {
            assert(pairs_view(q0@) =~= Seq::<(Seq<char>, Seq<char>)>::empty());
        }
        Request { url, method: Method::Post, params }
    }

    /// The token-refresh request: the same checksum pattern over
    /// `api_key ∥ access_token ∥ api_secret`.
    pub fn renew_access_token_request(&self, access_token: &str, api_secret: &str) -> (r: Request)
        ensures
            r.method is Post,
            r.url@ == url_spec(self.spec_root(), "/session/refresh_token"@, Seq::empty()),
            pairs_view(r.params@) == seq![
                ("api_key"@, self.spec_api_key()),
                ("access_token"@, access_token@),
                ("checksum"@, sha256_hex_of(self.spec_api_key() + access_token@ + api_secret@)),
            ],
    {
        let input = checksum_input(self.api_key.as_str(), access_token, api_secret);
        let checksum = native_checksum(input.as_str());
        let mut params: Vec<(String, String)> = Vec::new();
        push_pair(&mut params, "api_key", self.api_key.as_str());
        push_pair(&mut params, "access_token", access_token);
        push_pair(&mut params, "checksum", checksum.as_str());
        proof {
            assert(pairs_view(params@) =~= seq![
                ("api_key"@, self.spec_api_key()),
                ("access_token"@, access_token@),
                ("checksum"@, sha256_hex_of(self.spec_api_key() + access_token@ + api_secret@)),
            ]);
        }
        let q0: Vec<(String, String)> = Vec::new();
        let url = compose_url(self.root.as_str(), "/session/refresh_token", &q0);
        proof {
            assert(pairs_view(q0@) =~= Seq::<(Seq<char>, Seq<char>)>::empty());
        }
        Request { url, method: Method::Post, params }
    }

    /// The access-token invalidation request. Does not touch local state: the
    /// caller decides when to clear its own credentials.
    pub fn invalidate_access_token_request(&self, access_token: &str) -> (r: Request)
        ensures
            r.method is Delete,
            r.url@ == url_spec(self.spec_root(), "/session/token"@, Seq::empty()),
            pairs_view(r.params@) == seq![("access_token"@, access_token@)],
    {
        let mut params: Vec<(String, String)> = Vec::new();
        push_pair(&mut params, "access_token", access_token);
        proof {
            assert(pairs_view(params@) =~= seq![("access_token"@, access_token@)]);
        }
        let q0: Vec<(String, String)> = Vec::new();
        let url = compose_url(self.root.as_str(), "/session/token", &q0);
        proof {
            assert(pairs_view(q0@) =~= Seq::<(Seq<char>, Seq<char>)>::empty());
        }
        Request { url, method: Method::Delete, params }
    }

    /// The refresh-token invalidation request. Does not touch local state.
    pub fn invalidate_refresh_token_request(&self, refresh_token: &str) -> (r: Request)
        ensures
            r.method is Delete,
            r.url@ == url_spec(self.spec_root(), "/session/refresh_token"@, Seq::empty()),
            pairs_view(r.params@) == seq![("refresh_token"@, refresh_token@)],
    {
        let mut params: Vec<(String, String)> = Vec::new();
        push_pair(&mut params, "refresh_token", refresh_token);
        proof {
            assert(pairs_view(params@) =~= seq![("refresh_token"@, refresh_token@)]);
        }
        let q0: Vec<(String, String)> = Vec::new();
        let url = compose_url(self.root.as_str(), "/session/refresh_token", &q0);
        proof {
            assert(pairs_view(q0@) =~= Seq::<(Seq<char>, Seq<char>)>::empty());
        }
        Request { url, method: Method::Delete, params }
    }

    /// Applies the token-exchange response. On a success status whose body
    /// decodes and carries the nested `data.access_token` string, installs
    /// exactly that token and returns the decoded value; on any failure the
    /// stored credentials are untouched and the failure is surfaced: the
    /// server's error text verbatim for a non-success status, a `DecodeError`
    /// carrying the body otherwise.
    pub fn generate_session_apply(&mut self, status: u16, body: &str) -> (r: Result<
        serde_json::Value,
        KiteError,
    >)
        ensures
            !is_success_status(status) ==> (r matches Err(e) && e matches KiteError::ApiError {
                status: st,
                message: m,
            } && st == status && m@ == body@),
            is_success_status(status) && !json_accepts(body@) ==> (r matches Err(e) && e matches
                KiteError::DecodeError(m) && m@ == body@),
            is_success_status(status) && json_accepts(body@) ==> match session_token_of(body@) {
                Some(t) => (r matches Ok(v) && v == json_of(body@))
                    && final(self).spec_access_token() == t,
                None => r matches Err(e) && e matches KiteError::DecodeError(m) && m@ == body@,
            },
            r is Err ==> *final(self) == *old(self),
            r is Ok ==> final(self).spec_api_key() == old(self).spec_api_key()
                && final(self).spec_root() == old(self).spec_root(),
    {
        if !status_is_success(status) {
            return Err(KiteError::ApiError { status, message: body.to_owned() });
        }
        let v = match parse_json(body) {
            Some(v) => v,
            None => {
                return Err(KiteError::DecodeError(body.to_owned()));
            },
        };
        match extract_session_token(body) {
            Some(t) => {
                self.set_access_token(t.as_str());
                Ok(v)
            },
            None => Err(KiteError::DecodeError(body.to_owned())),
        }
    }

    /// Applies the token-refresh response: as the token exchange, but the new
    /// token sits at the top-level `access_token` field.
    pub fn renew_access_token_apply(&mut self, status: u16, body: &str) -> (r: Result<
        serde_json::Value,
        KiteError,
    >)
        ensures
            !is_success_status(status) ==> (r matches Err(e) && e matches KiteError::ApiError {
                status: st,
                message: m,
            } && st == status && m@ == body@),
            is_success_status(status) && !json_accepts(body@) ==> (r matches Err(e) && e matches
                KiteError::DecodeError(m) && m@ == body@),
            is_success_status(status) && json_accepts(body@) ==> match renewal_token_of(body@) {
                Some(t) => (r matches Ok(v) && v == json_of(body@))
                    && final(self).spec_access_token() == t,
                None => r matches Err(e) && e matches KiteError::DecodeError(m) && m@ == body@,
            },
            r is Err ==> *final(self) == *old(self),
            r is Ok ==> final(self).spec_api_key() == old(self).spec_api_key()
                && final(self).spec_root() == old(self).spec_root(),
    {
        if !status_is_success(status) {
            return Err(KiteError::ApiError { status, message: body.to_owned() });
        }
        let v = match parse_json(body) {
            Some(v) => v,
            None => {
                return Err(KiteError::DecodeError(body.to_owned()));
            },
        };
        match extract_renewal_token(body) {
            Some(t) => {
                self.set_access_token(t.as_str());
                Ok(v)
            },
            None => Err(KiteError::DecodeError(body.to_owned())),
        }
    }
}

/// The margins path, with or without a segment.
pub open spec fn margins_path(segment: Option<&str>) -> Seq<char> {
    match segment {
        Some(s) => "/user/margins/"@ + s@,
        None => "/user/margins"@,
    }
}

/// The mutual-fund orders path, with or without an order id.
pub open spec fn mf_orders_path(order_id: Option<&str>) -> Seq<char> {
    match order_id {
        Some(id) => "/mf/orders/"@ + id@,
        None => "/mf/orders"@,
    }
}

/// Every URL a well-formed client builds for a well-formed path parses
/// back into exactly that client's origin, that path, and those query pairs
/// in order: the builder loses nothing.
pub proof fn lemma_client_urls_parse_back(
    c: &KiteConnect,
    path: Seq<char>,
    ps: Seq<(Seq<char>, Seq<char>)>,
)
    requires
        c.wf(),
        valid_path(path),
    ensures
        parse_url_spec(url_spec(c.spec_root(), path, ps)) == Some((c.spec_root(), path, ps)),
{
    lemma_url_round_trip(c.spec_root(), path, ps);
}

/// The instrument-list path, with or without an exchange.
pub open spec fn instruments_path(exchange: Option<&str>) -> Seq<char> {
    match exchange {
        Some(ex) => "/instruments/"@ + ex@,
        None => "/instruments"@,
    }
}

} // verus!
