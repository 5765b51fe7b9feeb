//! A DNS provider that asks the operator to create and remove the records.
use vstd::prelude::*;

verus! {

/// The record a manual instruction names: `name.domain IN TXT`.
pub open spec fn record_line(domain: Seq<char>, name: Seq<char>) -> Seq<char> {
    name + seq!['.'] + domain + " IN TXT"@
}

/// The line asking the operator to create the TXT record `name.domain` with `value`.
pub open spec fn create_instruction_text(domain: Seq<char>, name: Seq<char>, value: Seq<char>) -> Seq<char> {
    name + seq!['.'] + domain + " IN TXT "@ + value
}

/// The line asking the operator to remove the TXT record `dns_id.domain_id`.
pub open spec fn delete_instruction_text(domain_id: Seq<char>, dns_id: Seq<char>) -> Seq<char> {
    dns_id + seq!['.'] + domain_id + " IN TXT"@
}

/// The removal asked for a manually created record names the record its creation named:
/// the identifiers returned on creation give the removal line `name.domain IN TXT`, and
/// the creation line is that record followed by a space and the value.
pub proof fn lemma_manual_removal_names_created_record(domain: Seq<char>, name: Seq<char>, value: Seq<char>)
    ensures
        delete_instruction_text(domain, name) == record_line(domain, name),
        create_instruction_text(domain, name, value) == record_line(domain, name) + seq![' '] + value,
{
    reveal_strlit(" IN TXT ");
    reveal_strlit(" IN TXT");
    assert(" IN TXT "@ =~= " IN TXT"@ + seq![' ']);
    assert(create_instruction_text(domain, name, value) =~= record_line(domain, name) + seq![' '] + value);
}

/// The manual DNS provider.
#[derive(Debug, Default)]
pub struct ManualClient;

impl ManualClient {
    pub fn new() -> (r: ManualClient) {
        ManualClient
    }

    /// The zone and record identifiers a manually created record is known by: its zone
    /// and its name, as the operator was told.
    pub fn record_id(domain: String, name: String) -> (r: (String, String))
        ensures
            r == (domain, name),
    {
        (domain, name)
    }

    /// The line that tells the operator which TXT record to create.
    pub fn create_instruction(domain: &str, name: &str, value: &str) -> (r: String)
        ensures
            r@ == create_instruction_text(domain@, name@, value@),
    {
        let mut r = String::from_str(name);
        r.append(".");
        r.append(domain);
        r.append(" IN TXT ");
        r.append(value);
        proof {
            reveal_strlit(".");
            assert("."@ =~= seq!['.']);
        }
        r
    }

    /// The line that tells the operator which TXT record to remove.
    pub fn delete_instruction(domain_id: &str, dns_id: &str) -> (r: String)
        ensures
            r@ == delete_instruction_text(domain_id@, dns_id@),
    {
        let mut r = String::from_str(dns_id);
        r.append(".");
        r.append(domain_id);
        r.append(" IN TXT");
        proof {
            reveal_strlit(".");
            assert("."@ =~= seq!['.']);
        }
        r
    }
}

impl super::DnsClient for ManualClient {
    fn wrap(self) -> (r: super::Clients)
        ensures
            r == super::Clients::Manual(self),
    {
        super::Clients::Manual(self)
    }
}

} // verus!
