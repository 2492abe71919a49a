//! The requests for the racks of the system.

use crate::client::{
    address_with, all_args, all_query, encode_path, encode_query, encoded_path, get_with_query,
    page_args, page_query, plain_request, Client, Method, Request,
};
use crate::text::concat2;
use vstd::prelude::*;
use vstd::string::*;

verus! {

/// The endpoint group of the racks.
pub struct Racks {
    pub client: Client,
}

/// The path of the rack `rack_id`.
pub open spec fn rack_path(rack_id: Seq<char>) -> Seq<char> {
    "/hardware/racks/"@ + encoded_path(rack_id)
}

impl Racks {
    /// The endpoint group on `client`.
    pub fn new(client: Client) -> (r: Racks)
        ensures
            r.client == client,
    {
        Racks { client }
    }

    /// The request that lists one page of the racks: at most `limit` racks,
    /// from `page_token` on, in the order `sort_by`.
    pub fn get_page(&self, limit: u32, page_token: &str, sort_by: &str) -> (r: Request)
        ensures
            r.method == Method::Get,
            r.body is None,
            r.url@ == address_with(
                "/hardware/racks"@,
                page_args(limit, page_token@, sort_by@),
            ),
    {
        let query = encode_query(&page_query(limit, page_token, sort_by));
        get_with_query("/hardware/racks", query.as_str())
    }

    /// The request that starts the listing of all racks in the order
    /// `sort_by`; the pages after the first are read with a
    /// [`crate::client::Pager`].
    pub fn get_all(&self, sort_by: &str) -> (r: Request)
        ensures
            r.method == Method::Get,
            r.body is None,
            r.url@ == address_with(
                "/hardware/racks"@,
                all_args(sort_by@),
            ),
    {
        let query = encode_query(&all_query(sort_by));
        get_with_query("/hardware/racks", query.as_str())
    }

    /// The request that reads the rack `rack_id`.
    pub fn get(&self, rack_id: &str) -> (r: Request)
        ensures
            r.method == Method::Get,
            r.url@ == rack_path(rack_id@),
            r.body is None,
    {
        plain_request(
            Method::Get,
            concat2("/hardware/racks/", encode_path(rack_id).as_str()),
            None,
        )
    }
}

} // verus!
