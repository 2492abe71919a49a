//! The requests for the firewall rules of a VPC.

use crate::client::{
    address_with, all_args, all_query, encode_path, encode_query, encoded_path, get_with_query,
    page_args, page_query, plain_request, Client, Method, Request,
};
use vstd::prelude::*;
use vstd::string::*;

verus! {

/// The endpoint group of the firewall rules.
pub struct Firewall {
    pub client: Client,
}

/// The path of the firewall rules of the VPC `vpc` in the project `project`
/// of the organization `organization`.
pub open spec fn rules_path(organization: Seq<char>, project: Seq<char>, vpc: Seq<char>) -> Seq<
    char,
> {
    "/organizations/"@ + encoded_path(organization) + "/projects/"@ + encoded_path(project)
        + "/vpcs/"@ + encoded_path(vpc) + "/firewall/rules"@
}

impl Firewall {
    /// The endpoint group on `client`.
    pub fn new(client: Client) -> (r: Firewall)
        ensures
            r.client == client,
    {
        Firewall { client }
    }

    /// The path of the firewall rules of a VPC.
    pub fn vpc_rules_path(organization_name: &str, project_name: &str, vpc_name: &str) -> (r:
        String)
        ensures
            r@ == rules_path(organization_name@, project_name@, vpc_name@),
    {
        let mut s = String::from_str("/organizations/");
        s.append(encode_path(organization_name).as_str());
        s.append("/projects/");
        s.append(encode_path(project_name).as_str());
        s.append("/vpcs/");
        s.append(encode_path(vpc_name).as_str());
        s.append("/firewall/rules");
        s
    }

    /// The request that lists one page of the firewall rules of a VPC: at
    /// most `limit` rules, from `page_token` on, in the order `sort_by`.
    pub fn vpc_rules_get(
        &self,
        limit: u32,
        page_token: &str,
        sort_by: &str,
        organization_name: &str,
        project_name: &str,
        vpc_name: &str,
    ) -> (r: Request)
        ensures
            r.method == Method::Get,
            r.body is None,
            r.url@ == address_with(
                rules_path(organization_name@, project_name@, vpc_name@),
                page_args(limit, page_token@, sort_by@),
            ),
    {
        let path = Firewall::vpc_rules_path(organization_name, project_name, vpc_name);
        let query = encode_query(&page_query(limit, page_token, sort_by));
        get_with_query(path.as_str(), query.as_str())
    }

    /// The request that starts the listing of all firewall rules of a VPC in
    /// the order `sort_by`; the pages after the first are read with a
    /// [`crate::client::Pager`].
    pub fn vpc_rules_get_all(
        &self,
        sort_by: &str,
        organization_name: &str,
        project_name: &str,
        vpc_name: &str,
    ) -> (r: Request)
        ensures
            r.method == Method::Get,
            r.body is None,
            r.url@ == address_with(
                rules_path(organization_name@, project_name@, vpc_name@),
                all_args(sort_by@),
            ),
    {
        let path = Firewall::vpc_rules_path(organization_name, project_name, vpc_name);
        let query = encode_query(&all_query(sort_by));
        get_with_query(path.as_str(), query.as_str())
    }

    /// The request that replaces the firewall rules of a VPC by those in
    /// `body`.
    pub fn vpc_rules_put(
        &self,
        organization_name: &str,
        project_name: &str,
        vpc_name: &str,
        body: Vec<u8>,
    ) -> (r: Request)
        ensures
            r.method == Method::Put,
            r.url@ == rules_path(organization_name@, project_name@, vpc_name@),
            r.body == Some(body),
    {
        plain_request(
            Method::Put,
            Firewall::vpc_rules_path(organization_name, project_name, vpc_name),
            Some(body),
        )
    }
}

} // verus!
