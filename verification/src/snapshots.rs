//! The requests for the snapshots of a project.

use crate::client::{
    address_with, all_args, all_query, encode_path, encode_query, encoded_path, get_with_query,
    page_args, page_query, plain_request, Client, Method, Request,
};
use vstd::prelude::*;
use vstd::string::*;

verus! {

/// The endpoint group of the snapshots.
pub struct Snapshots {
    pub client: Client,
}

/// The path of the snapshots of the project `project` of the organization
/// `organization`.
pub open spec fn snapshots_path(organization: Seq<char>, project: Seq<char>) -> Seq<char> {
    "/organizations/"@ + encoded_path(organization) + "/projects/"@ + encoded_path(project)
        + "/snapshots"@
}

/// The path of the snapshot `snapshot` of a project.
pub open spec fn snapshot_path(organization: Seq<char>, project: Seq<char>, snapshot: Seq<char>)
    -> Seq<char> {
    snapshots_path(organization, project) + "/"@ + encoded_path(snapshot)
}

impl Snapshots {
    /// The endpoint group on `client`.
    pub fn new(client: Client) -> (r: Snapshots)
        ensures
            r.client == client,
    {
        Snapshots { client }
    }

    /// The path of the snapshots of a project.
    pub fn collection_path(organization_name: &str, project_name: &str) -> (r: String)
        ensures
            r@ == snapshots_path(organization_name@, project_name@),
    {
        let mut s = String::from_str("/organizations/");
        s.append(encode_path(organization_name).as_str());
        s.append("/projects/");
        s.append(encode_path(project_name).as_str());
        s.append("/snapshots");
        s
    }

    /// The path of one snapshot of a project.
    pub fn item_path(organization_name: &str, project_name: &str, snapshot_name: &str) -> (r:
        String)
        ensures
            r@ == snapshot_path(organization_name@, project_name@, snapshot_name@),
    {
        let mut s = Snapshots::collection_path(organization_name, project_name);
        s.append("/");
        s.append(encode_path(snapshot_name).as_str());
        s
    }

    /// The request that lists one page of the snapshots of a project: at most
    /// `limit` snapshots, from `page_token` on, in the order `sort_by`.
    pub fn get_page(
        &self,
        limit: u32,
        organization_name: &str,
        page_token: &str,
        project_name: &str,
        sort_by: &str,
    ) -> (r: Request)
        ensures
            r.method == Method::Get,
            r.body is None,
            r.url@ == address_with(
                snapshots_path(organization_name@, project_name@),
                page_args(limit, page_token@, sort_by@),
            ),
    {
        let path = Snapshots::collection_path(organization_name, project_name);
        let query = encode_query(&page_query(limit, page_token, sort_by));
        get_with_query(path.as_str(), query.as_str())
    }

    /// The request that starts the listing of all snapshots of a project in
    /// the order `sort_by`; the pages after the first are read with a
    /// [`crate::client::Pager`].
    pub fn get_all(&self, organization_name: &str, project_name: &str, sort_by: &str) -> (r:
        Request)
        ensures
            r.method == Method::Get,
            r.body is None,
            r.url@ == address_with(
                snapshots_path(organization_name@, project_name@),
                all_args(sort_by@),
            ),
    {
        let path = Snapshots::collection_path(organization_name, project_name);
        let query = encode_query(&all_query(sort_by));
        get_with_query(path.as_str(), query.as_str())
    }

    /// The request that creates the snapshot that `body` describes.
    pub fn post(&self, organization_name: &str, project_name: &str, body: Vec<u8>) -> (r: Request)
        ensures
            r.method == Method::Post,
            r.url@ == snapshots_path(organization_name@, project_name@),
            r.body == Some(body),
    {
        plain_request(
            Method::Post,
            Snapshots::collection_path(organization_name, project_name),
            Some(body),
        )
    }

    /// The request that reads the snapshot `snapshot_name`.
    pub fn get(&self, organization_name: &str, project_name: &str, snapshot_name: &str) -> (r:
        Request)
        ensures
            r.method == Method::Get,
            r.url@ == snapshot_path(organization_name@, project_name@, snapshot_name@),
            r.body is None,
    {
        plain_request(
            Method::Get,
            Snapshots::item_path(organization_name, project_name, snapshot_name),
            None,
        )
    }

    /// The request that deletes the snapshot `snapshot_name`.
    pub fn delete(&self, organization_name: &str, project_name: &str, snapshot_name: &str) -> (r:
        Request)
        ensures
            r.method == Method::Delete,
            r.url@ == snapshot_path(organization_name@, project_name@, snapshot_name@),
            r.body is None,
    {
        plain_request(
            Method::Delete,
            Snapshots::item_path(organization_name, project_name, snapshot_name),
            None,
        )
    }
}

} // verus!
