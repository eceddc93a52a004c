//! The tenants as the store gives them.
//!
//! The store answers with one row for each pair of a tenant and one of
//! its client certificates, and one row for a tenant without any: the
//! columns of the tenant are repeated in each of its rows. The rows are
//! gathered here into one record for each tenant.

use std::collections::HashMap;

use vstd::prelude::*;

verus! {

/// One row of the store's answer.
#[derive(Debug)]
pub struct BrandRow {
    pub brand_uuid: u128,
    pub domain: Vec<u8>,
    pub default: bool,
    pub web_cert_data: Option<Vec<u8>>,
    pub web_cert_key: Option<Vec<u8>>,
    pub client_cert_data: Option<Vec<u8>>,
    pub client_cert_key: Option<Vec<u8>>,
}

/// A certificate and its key, both as PEM.
#[derive(Debug)]
pub struct Certificate {
    pub certificate_data: Vec<u8>,
    pub key_data: Vec<u8>,
}

/// A tenant.
#[derive(Debug)]
pub struct Brand {
    pub brand_uuid: u128,
    pub domain: Vec<u8>,
    pub default: bool,
    /// The certificate that the tenant's domain is served with.
    pub web_certificate: Option<Certificate>,
    /// The certificates that clients of the tenant are verified against.
    pub client_certificates: Vec<Certificate>,
}

/// The mathematical content of a `Certificate`.
pub struct CertificateView {
    pub certificate_data: Seq<u8>,
    pub key_data: Seq<u8>,
}

/// The mathematical content of a `Brand`.
pub struct BrandView {
    pub brand_uuid: u128,
    pub domain: Seq<u8>,
    pub default: bool,
    pub web_certificate: Option<CertificateView>,
    pub client_certificates: Seq<CertificateView>,
}

impl View for Certificate {
    type V = CertificateView;

    open spec fn view(&self) -> CertificateView {
        CertificateView { certificate_data: self.certificate_data@, key_data: self.key_data@ }
    }
}

impl View for Brand {
    type V = BrandView;

    open spec fn view(&self) -> BrandView {
        BrandView {
            brand_uuid: self.brand_uuid,
            domain: self.domain@,
            default: self.default,
            web_certificate: match self.web_certificate {
                Some(c) => Some(c@),
                None => None,
            },
            client_certificates: Seq::new(
                self.client_certificates@.len(),
                |i: int| self.client_certificates@[i]@,
            ),
        }
    }
}

/// A certificate and its key, where a row holds both.
pub open spec fn pair(data: Option<Vec<u8>>, key: Option<Vec<u8>>) -> Option<CertificateView> {
    match (data, key) {
        (Some(d), Some(k)) => Some(CertificateView { certificate_data: d@, key_data: k@ }),
        _ => None,
    }
}

/// The position of the tenant among the records from `from` on.
pub open spec fn position_of(brands: Seq<BrandView>, brand_uuid: u128, from: int) -> Option<int>
    decreases brands.len() - from,
{
    if from < 0 || from >= brands.len() {
        None
    } else if brands[from].brand_uuid == brand_uuid {
        Some(from)
    } else {
        position_of(brands, brand_uuid, from + 1)
    }
}

/// The client certificates of a record with that of the row added, where
/// the row holds one.
pub open spec fn with_client(clients: Seq<CertificateView>, row: BrandRow) -> Seq<CertificateView> {
    match pair(row.client_cert_data, row.client_cert_key) {
        Some(c) => clients.push(c),
        None => clients,
    }
}

/// The records with one row taken in. The first row of a tenant makes its
/// record, from the columns of the tenant; every row of a tenant that
/// holds a client certificate adds it to the record.
pub open spec fn add_row(brands: Seq<BrandView>, row: BrandRow) -> Seq<BrandView> {
    match position_of(brands, row.brand_uuid, 0) {
        Some(i) => brands.update(
            i,
            BrandView {
                client_certificates: with_client(brands[i].client_certificates, row),
                ..brands[i]
            },
        ),
        None => brands.push(
            BrandView {
                brand_uuid: row.brand_uuid,
                domain: row.domain@,
                default: row.default,
                web_certificate: pair(row.web_cert_data, row.web_cert_key),
                client_certificates: with_client(Seq::empty(), row),
            },
        ),
    }
}

/// The records of the tenants in a list of rows, in the order in which
/// the tenants first appear.
pub open spec fn spec_group(rows: Seq<BrandRow>) -> Seq<BrandView>
    decreases rows.len(),
{
    if rows.len() == 0 {
        Seq::empty()
    } else {
        add_row(spec_group(rows.drop_last()), rows.last())
    }
}

/// The mathematical content of a list of records.
pub open spec fn brands_view(brands: Seq<Brand>) -> Seq<BrandView> {
    Seq::new(brands.len(), |i: int| brands[i]@)
}

fn copy_pair(data: &Option<Vec<u8>>, key: &Option<Vec<u8>>) -> (r: Option<Certificate>)
    ensures
        match r {
            Some(c) => pair(*data, *key) == Some(c@),
            None => pair(*data, *key) is None,
        },
{
    match (data, key) {
        (Some(d), Some(k)) => Some(
            Certificate {
                certificate_data: vstd::slice::slice_to_vec(d.as_slice()),
                key_data: vstd::slice::slice_to_vec(k.as_slice()),
            },
        ),
        _ => None,
    }
}

/// Whether `index` finds every tenant of the records where its record
/// stands, and no other.
pub open spec fn indexes(index: Map<u128, usize>, brands: Seq<BrandView>) -> bool {
    forall|id: u128|
        #![trigger index.contains_key(id)]
        #![trigger position_of(brands, id, 0)]
        position_of(brands, id, 0) == if index.contains_key(id) {
            Some(index[id] as int)
        } else {
            None
        }
}

/// Where a record stands depends on the identifiers of the records
/// alone.
proof fn lemma_position_by_identifiers(
    a: Seq<BrandView>,
    b: Seq<BrandView>,
    brand_uuid: u128,
    from: int,
)
    requires
        a.len() == b.len(),
        forall|i: int| 0 <= i < a.len() ==> a[i].brand_uuid == b[i].brand_uuid,
    ensures
        position_of(a, brand_uuid, from) == position_of(b, brand_uuid, from),
    decreases a.len() - from,
{
    if 0 <= from < a.len() && a[from].brand_uuid != brand_uuid {
        lemma_position_by_identifiers(a, b, brand_uuid, from + 1);
    }
}

/// A record added at the end stands there for its tenant if the tenant
/// had none, and leaves every other record where it stood.
proof fn lemma_position_after_push(
    brands: Seq<BrandView>,
    added: BrandView,
    brand_uuid: u128,
    from: int,
)
    requires
        0 <= from <= brands.len(),
    ensures
        position_of(brands.push(added), brand_uuid, from) == match position_of(
            brands,
            brand_uuid,
            from,
        ) {
            Some(i) => Some(i),
            None => if added.brand_uuid == brand_uuid {
                Some(brands.len() as int)
            } else {
                None
            },
        },
    decreases brands.len() - from,
{
    let all = brands.push(added);
    if from < brands.len() {
        assert(all[from] == brands[from]);
        if brands[from].brand_uuid != brand_uuid {
            lemma_position_after_push(brands, added, brand_uuid, from + 1);
        }
    } else {
        assert(all[from] == added);
        assert(position_of(all, brand_uuid, from + 1) is None);
    }
}

/// Gathers the rows of the store's answer into one record for each
/// tenant.
///
/// The records are kept in a list, in the order in which the store named
/// the tenants: the order decides which of two bindings that answer a
/// name equally well is taken. A hash map by the tenant's identifier
/// tells where in the list the record of a tenant stands.
pub fn group_brands(rows: &[BrandRow]) -> (brands: Vec<Brand>)
    ensures
        brands_view(brands@) == spec_group(rows@),
{
    broadcast use vstd::std_specs::hash::group_hash_axioms;

    let mut brands: Vec<Brand> = Vec::new();
    let mut index: HashMap<u128, usize> = HashMap::new();
    let mut n: usize = 0;
    assert(brands_view(brands@) =~= spec_group(rows@.subrange(0, 0)));
    while n < rows.len()
        invariant
            n <= rows.len(),
            brands_view(brands@) == spec_group(rows@.subrange(0, n as int)),
            indexes(index@, brands_view(brands@)),
            forall|id: u128| index@.contains_key(id) ==> (#[trigger] index@[id]) < brands.len(),
        decreases rows.len() - n,
    {
        let row = &rows[n];
        let ghost before = brands_view(brands@);
        let ghost index_before = index@;
        proof {
            assert(rows@.subrange(0, n + 1).drop_last() =~= rows@.subrange(0, n as int));
            assert(rows@.subrange(0, n + 1).last() == *row);
        }
        let client = copy_pair(&row.client_cert_data, &row.client_cert_key);
        let found = match index.get(&row.brand_uuid) {
            Some(i) => Some(*i),
            None => None,
        };
        match found {
            Some(i) => {
                assert(position_of(before, row.brand_uuid, 0) == Some(i as int));
                if let Some(c) = client {
                    let ghost old_clients = brands@[i as int]@.client_certificates;
                    let mut brand = brands.remove(i);
                    brand.client_certificates.push(c);
                    assert(brand@.client_certificates =~= old_clients.push(c@));
                    brands.insert(i, brand);
                }
                let ghost after = brands_view(brands@);
                assert(after =~= add_row(before, *row));
                proof {
                    assert forall|id: u128|
                        #![trigger index@.contains_key(id)]
                        #![trigger position_of(after, id, 0)]
                        position_of(after, id, 0) == if index@.contains_key(id) {
                            Some(index@[id] as int)
                        } else {
                            None
                        } by {
                        lemma_position_by_identifiers(before, after, id, 0);
                        assert(position_of(before, id, 0) == if index@.contains_key(id) {
                            Some(index@[id] as int)
                        } else {
                            None
                        });
                    }
                }
            },
            None => {
                assert(position_of(before, row.brand_uuid, 0) is None);
                let mut clients: Vec<Certificate> = Vec::new();
                if let Some(c) = client {
                    clients.push(c);
                }
                let brand = Brand {
                    brand_uuid: row.brand_uuid,
                    domain: vstd::slice::slice_to_vec(row.domain.as_slice()),
                    default: row.default,
                    web_certificate: copy_pair(&row.web_cert_data, &row.web_cert_key),
                    client_certificates: clients,
                };
                assert(brand@.client_certificates =~= with_client(Seq::empty(), *row));
                let ghost added = brand@;
                index.insert(row.brand_uuid, brands.len());
                brands.push(brand);
                let ghost after = brands_view(brands@);
                assert(after =~= before.push(added));
                assert(after =~= add_row(before, *row));
                proof {
                    assert forall|id: u128|
                        #![trigger index@.contains_key(id)]
                        #![trigger position_of(after, id, 0)]
                        position_of(after, id, 0) == if index@.contains_key(id) {
                            Some(index@[id] as int)
                        } else {
                            None
                        } by {
                        lemma_position_after_push(before, added, id, 0);
                        assert(position_of(before, id, 0) == if index_before.contains_key(id) {
                            Some(index_before[id] as int)
                        } else {
                            None
                        });
                    }
                }
            },
        }
        n += 1;
    }
    assert(rows@.subrange(0, rows@.len() as int) =~= rows@);
    brands
}

} // verus!
