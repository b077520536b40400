//! Admin data exports: CSV tables of users, audit entries and observations,
//! a per-user ZIP archive of JSON documents, and a gzip-compressed copy of
//! the database. The encodings come from the `csv`, `zip` and `flate2`
//! crates; this module decides what goes into them.

use vstd::prelude::*;
use std::io::Write;
use crate::admin::AdminObservationView;
use crate::error::AppError;
use crate::rows::{AuditRow, UserRow};
use crate::text::{concat_str, int_text, owned, spec_int_text};
use vstd::utf8::{encode_scalar, encode_utf8};

verus! {

/// Filters of the exports.
#[derive(Debug, Clone)]
pub struct ExportFilter {
    pub user: Option<String>,
    pub project: Option<String>,
    pub from: Option<i64>,
    pub to: Option<i64>,
}

// ---------- CSV ----------

/// An in-memory `csv::Writer`. (Verus does not take a declaration of
/// `csv::Writer<W>`, whose parameter is bound by `std::io::Write`, so the
/// writer is held here, opaque.)
#[verifier::external_body]
pub struct CsvSink {
    inner: csv::Writer<Vec<u8>>,
}

/// The records written so far to a CSV writer.
pub uninterp spec fn spec_csv_written(w: CsvSink) -> Seq<Seq<Seq<char>>>;

/// The CSV encoding (RFC 4180 quoting, `\n` line ends) of records.
pub uninterp spec fn spec_csv_bytes(records: Seq<Seq<Seq<char>>>) -> Seq<u8>;

/// Calls `csv::Writer::from_writer` on an empty buffer.
#[verifier::external_body]
fn csv_writer() -> (w: CsvSink)
    ensures
        spec_csv_written(w) == Seq::<Seq<Seq<char>>>::empty(),
{
    CsvSink { inner: csv::Writer::from_writer(Vec::new()) }
}

/// Calls `csv::Writer::write_record` with the fields of `record`; on
/// success the record is appended. The writer is not flexible: it refuses a
/// record whose field count differs from the first record's, and nothing
/// else (writing into a `Vec` does not fail).
#[verifier::external_body]
fn csv_write_record(w: &mut CsvSink, record: &Vec<String>) -> (r: Result<(), String>)
    ensures
        r is Ok ==> spec_csv_written(*final(w)) == spec_csv_written(*old(w)).push(
            record@.map_values(|f: String| f@),
        ),
        r is Ok <==> (spec_csv_written(*old(w)).len() == 0 || spec_csv_written(*old(w))[0].len()
            == record@.len()),
{
    w.inner.write_record(record.iter()).map_err(|e| e.to_string())
}

/// Calls `csv::Writer::into_inner`: the encoded bytes of the records. Its
/// flush into a `Vec` does not fail.
#[verifier::external_body]
fn csv_into_bytes(w: CsvSink) -> (r: Result<Vec<u8>, String>)
    ensures
        r matches Ok(b) ==> b@ == spec_csv_bytes(spec_csv_written(w)),
        r is Ok,
{
    w.inner.into_inner().map_err(|e| e.to_string())
}

/// The fields of a list of records.
pub open spec fn records_view(rs: Seq<Vec<String>>) -> Seq<Seq<Seq<char>>> {
    rs.map_values(|r: Vec<String>| r@.map_values(|f: String| f@))
}

/// Every record has as many fields as the first.
pub open spec fn uniform_records(rs: Seq<Seq<Seq<char>>>) -> bool {
    forall|i: int| 0 <= i < rs.len() ==> #[trigger] rs[i].len() == rs[0].len()
}

/// The CSV bytes of `records`, which succeed exactly when every record has
/// as many fields as the first; a refusal of the encoder is internal.
pub fn csv_encode(records: &Vec<Vec<String>>) -> (r: Result<Vec<u8>, AppError>)
    ensures
        r matches Ok(b) ==> b@ == spec_csv_bytes(records_view(records@)),
        r matches Err(e) ==> e is Internal,
        r is Ok <==> uniform_records(records_view(records@)),
{
    let ghost rv = records_view(records@);
    let mut w = csv_writer();
    let mut i: usize = 0;
    while i < records.len()
        invariant
            i <= records.len(),
            rv == records_view(records@),
            spec_csv_written(w) == records_view(records@.take(i as int)),
            forall|j: int| 0 <= j < i ==> #[trigger] rv[j].len() == rv[0].len(),
        decreases records.len() - i,
    {
        proof {
            assert(rv[i as int] == records@[i as int]@.map_values(|f: String| f@));
            if i > 0 {
                assert(spec_csv_written(w)[0] == rv[0]);
            }
        }
        match csv_write_record(&mut w, &records[i]) {
            Ok(()) => {},
            Err(m) => {
                proof {
                    assert(rv[i as int].len() != rv[0].len());
                    assert(!uniform_records(rv));
                }
                return Err(AppError::Internal(concat_str("csv: ", m.as_str())));
            },
        }
        assert(records_view(records@.take(i + 1)) =~= records_view(records@.take(i as int)).push(
            records@[i as int]@.map_values(|f: String| f@),
        ));
        i = i + 1;
    }
    assert(records@.take(records.len() as int) =~= records@);
    match csv_into_bytes(w) {
        Ok(b) => Ok(b),
        Err(m) => Err(AppError::Internal(concat_str("csv flush: ", m.as_str()))),
    }
}

/// An optional text as a CSV field (empty when absent).
pub open spec fn text_field(o: Option<String>) -> Seq<char> {
    match o {
        Some(s) => s@,
        None => Seq::empty(),
    }
}

/// An optional number as a CSV field (empty when absent).
pub open spec fn int_field(o: Option<i64>) -> Seq<char> {
    match o {
        Some(n) => spec_int_text(n as int),
        None => Seq::empty(),
    }
}

/// A flag as a CSV field: `1` or `0`.
pub open spec fn flag_field(x: i64) -> Seq<char> {
    if x != 0 {
        "1"@
    } else {
        "0"@
    }
}

fn text_of(o: &Option<String>) -> (r: String)
    ensures
        r@ == text_field(*o),
{
    match o {
        Some(s) => s.clone(),
        None => String::new(),
    }
}

fn int_of(o: Option<i64>) -> (r: String)
    ensures
        r@ == int_field(o),
{
    match o {
        Some(n) => int_text(n),
        None => String::new(),
    }
}

fn flag_of(x: i64) -> (r: String)
    ensures
        r@ == flag_field(x),
{
    if x != 0 {
        owned("1")
    } else {
        owned("0")
    }
}

fn header(names: &[&str]) -> (r: Vec<String>)
    ensures
        r@.map_values(|f: String| f@) == names@.map_values(|n: &str| n@),
{
    let mut out: Vec<String> = Vec::new();
    let mut i: usize = 0;
    while i < names.len()
        invariant
            i <= names.len(),
            out@.map_values(|f: String| f@) == names@.take(i as int).map_values(|n: &str| n@),
        decreases names.len() - i,
    {
        out.push(owned(names[i]));
        assert(names@.take(i + 1).map_values(|n: &str| n@) =~= names@.take(i as int).map_values(
            |n: &str| n@,
        ).push(names@[i as int]@));
        assert(out@.map_values(|f: String| f@) =~= names@.take(i + 1).map_values(|n: &str| n@));
        i = i + 1;
    }
    assert(names@.take(names.len() as int) =~= names@);
    out
}

/// The columns of `users.csv`.
pub open spec fn users_csv_header() -> Seq<Seq<char>> {
    seq![
        "id"@,
        "username"@,
        "email"@,
        "is_admin"@,
        "is_active"@,
        "created_at"@,
        "last_login_at"@,
        "registration_ip"@,
        "last_login_ip"@,
    ]
}

/// The `users.csv` line of a user.
pub open spec fn spec_user_csv(u: UserRow) -> Seq<Seq<char>> {
    seq![
        u.id@,
        u.username@,
        text_field(u.email),
        flag_field(u.is_admin),
        flag_field(u.is_active),
        spec_int_text(u.created_at as int),
        int_field(u.last_login_at),
        text_field(u.registration_ip),
        text_field(u.last_login_ip),
    ]
}

/// The `users.csv` line of a user.
pub fn user_csv_record(u: &UserRow) -> (r: Vec<String>)
    ensures
        r@.map_values(|f: String| f@) == spec_user_csv(*u),
{
    let r = vec![
        u.id.clone(),
        u.username.clone(),
        text_of(&u.email),
        flag_of(u.is_admin),
        flag_of(u.is_active),
        int_text(u.created_at),
        int_of(u.last_login_at),
        text_of(&u.registration_ip),
        text_of(&u.last_login_ip),
    ];
    assert(r@.map_values(|f: String| f@) =~= spec_user_csv(*u));
    r
}

/// The columns of `audit.csv`.
pub open spec fn audit_csv_header() -> Seq<Seq<char>> {
    seq!["id"@, "user_id"@, "machine_id"@, "action"@, "target_type"@, "target_id"@, "created_at"@]
}

/// The `audit.csv` line of an audit entry.
pub open spec fn spec_audit_csv(a: AuditRow) -> Seq<Seq<char>> {
    seq![
        spec_int_text(a.id as int),
        text_field(a.user_id),
        text_field(a.machine_id),
        a.action@,
        text_field(a.target_type),
        text_field(a.target_id),
        spec_int_text(a.created_at as int),
    ]
}

/// The `audit.csv` line of an audit entry.
pub fn audit_csv_record(a: &AuditRow) -> (r: Vec<String>)
    ensures
        r@.map_values(|f: String| f@) == spec_audit_csv(*a),
{
    let r = vec![
        int_text(a.id),
        text_of(&a.user_id),
        text_of(&a.machine_id),
        a.action.clone(),
        text_of(&a.target_type),
        text_of(&a.target_id),
        int_text(a.created_at),
    ];
    assert(r@.map_values(|f: String| f@) =~= spec_audit_csv(*a));
    r
}

/// The columns of `observations.csv`.
pub open spec fn observations_csv_header() -> Seq<Seq<char>> {
    seq![
        "id"@,
        "user_id"@,
        "username"@,
        "machine_id"@,
        "project_id"@,
        "project_name"@,
        "timestamp"@,
        "project_path"@,
        "obs_type"@,
        "server_seq"@,
        "server_received_at"@,
        "deleted_at"@,
        "content"@,
    ]
}

/// The `observations.csv` line of an observation.
pub open spec fn spec_observation_csv(o: AdminObservationView) -> Seq<Seq<char>> {
    seq![
        o.id@,
        o.user_id@,
        o.username@,
        o.machine_id@,
        text_field(o.project_id),
        text_field(o.project_name),
        spec_int_text(o.timestamp as int),
        text_field(o.project_path),
        text_field(o.obs_type),
        spec_int_text(o.server_seq as int),
        spec_int_text(o.server_received_at as int),
        int_field(o.deleted_at),
        o.content@,
    ]
}

/// The `observations.csv` line of an observation.
pub fn observation_csv_record(o: &AdminObservationView) -> (r: Vec<String>)
    ensures
        r@.map_values(|f: String| f@) == spec_observation_csv(*o),
{
    let r = vec![
        o.id.clone(),
        o.user_id.clone(),
        o.username.clone(),
        o.machine_id.clone(),
        text_of(&o.project_id),
        text_of(&o.project_name),
        int_text(o.timestamp),
        text_of(&o.project_path),
        text_of(&o.obs_type),
        int_text(o.server_seq),
        int_text(o.server_received_at),
        int_of(o.deleted_at),
        o.content.clone(),
    ];
    assert(r@.map_values(|f: String| f@) =~= spec_observation_csv(*o));
    r
}

/// `users.csv`: the header, then one line per user.
pub fn users_csv(rows: &[UserRow]) -> (r: Result<Vec<u8>, AppError>)
    ensures
        r matches Ok(b) ==> b@ == spec_csv_bytes(
            seq![users_csv_header()] + rows@.map_values(|u: UserRow| spec_user_csv(u)),
        ),
        r matches Err(e) ==> e is Internal,
        r is Ok,
{
    let mut records: Vec<Vec<String>> = Vec::new();
    let h = header(
        &[
            "id",
            "username",
            "email",
            "is_admin",
            "is_active",
            "created_at",
            "last_login_at",
            "registration_ip",
            "last_login_ip",
        ],
    );
    proof {
        assert(h@.map_values(|f: String| f@) =~= users_csv_header());
    }
    records.push(h);
    let mut i: usize = 0;
    while i < rows.len()
        invariant
            i <= rows.len(),
            records_view(records@) == seq![users_csv_header()] + rows@.take(i as int).map_values(
                |u: UserRow| spec_user_csv(u),
            ),
        decreases rows.len() - i,
    {
        let rec = user_csv_record(&rows[i]);
        let ghost before = records@;
        let ghost rv = rec@.map_values(|f: String| f@);
        records.push(rec);
        assert(records_view(records@) =~= records_view(before).push(rv));
        assert(rows@.take(i + 1).map_values(|u: UserRow| spec_user_csv(u)) =~= rows@.take(
            i as int,
        ).map_values(|u: UserRow| spec_user_csv(u)).push(spec_user_csv(rows@[i as int])));
        assert(records_view(records@) =~= seq![users_csv_header()] + rows@.take(i + 1).map_values(
            |u: UserRow| spec_user_csv(u),
        ));
        i = i + 1;
    }
    assert(rows@.take(rows.len() as int) =~= rows@);
    proof {
        let rv = records_view(records@);
        assert(rv[0].len() == 9);
        assert forall|k: int| 0 <= k < rv.len() implies #[trigger] rv[k].len() == rv[0].len() by {
            if k > 0 {
                assert(rv[k] == spec_user_csv(rows@[k - 1]));
            }
        }
    }
    csv_encode(&records)
}

/// `audit.csv`: the header, then one line per entry.
pub fn audit_csv(rows: &[AuditRow]) -> (r: Result<Vec<u8>, AppError>)
    ensures
        r matches Ok(b) ==> b@ == spec_csv_bytes(
            seq![audit_csv_header()] + rows@.map_values(|a: AuditRow| spec_audit_csv(a)),
        ),
        r matches Err(e) ==> e is Internal,
        r is Ok,
{
    let mut records: Vec<Vec<String>> = Vec::new();
    let h = header(
        &["id", "user_id", "machine_id", "action", "target_type", "target_id", "created_at"],
    );
    proof {
        assert(h@.map_values(|f: String| f@) =~= audit_csv_header());
    }
    records.push(h);
    let mut i: usize = 0;
    while i < rows.len()
        invariant
            i <= rows.len(),
            records_view(records@) == seq![audit_csv_header()] + rows@.take(i as int).map_values(
                |a: AuditRow| spec_audit_csv(a),
            ),
        decreases rows.len() - i,
    {
        let rec = audit_csv_record(&rows[i]);
        let ghost before = records@;
        let ghost rv = rec@.map_values(|f: String| f@);
        records.push(rec);
        assert(records_view(records@) =~= records_view(before).push(rv));
        assert(rows@.take(i + 1).map_values(|a: AuditRow| spec_audit_csv(a)) =~= rows@.take(
            i as int,
        ).map_values(|a: AuditRow| spec_audit_csv(a)).push(spec_audit_csv(rows@[i as int])));
        assert(records_view(records@) =~= seq![audit_csv_header()] + rows@.take(i + 1).map_values(
            |a: AuditRow| spec_audit_csv(a),
        ));
        i = i + 1;
    }
    assert(rows@.take(rows.len() as int) =~= rows@);
    proof {
        let rv = records_view(records@);
        assert(rv[0].len() == 7);
        assert forall|k: int| 0 <= k < rv.len() implies #[trigger] rv[k].len() == rv[0].len() by {
            if k > 0 {
                assert(rv[k] == spec_audit_csv(rows@[k - 1]));
            }
        }
    }
    csv_encode(&records)
}

/// `observations.csv`: the header, then one line per observation.
pub fn observations_csv(rows: &[AdminObservationView]) -> (r: Result<Vec<u8>, AppError>)
    ensures
        r matches Ok(b) ==> b@ == spec_csv_bytes(
            seq![observations_csv_header()] + rows@.map_values(
                |o: AdminObservationView| spec_observation_csv(o),
            ),
        ),
        r matches Err(e) ==> e is Internal,
        r is Ok,
{
    let mut records: Vec<Vec<String>> = Vec::new();
    let h = header(
        &[
            "id",
            "user_id",
            "username",
            "machine_id",
            "project_id",
            "project_name",
            "timestamp",
            "project_path",
            "obs_type",
            "server_seq",
            "server_received_at",
            "deleted_at",
            "content",
        ],
    );
    proof {
        assert(h@.map_values(|f: String| f@) =~= observations_csv_header());
    }
    records.push(h);
    let mut i: usize = 0;
    while i < rows.len()
        invariant
            i <= rows.len(),
            records_view(records@) == seq![observations_csv_header()] + rows@.take(
                i as int,
            ).map_values(|o: AdminObservationView| spec_observation_csv(o)),
        decreases rows.len() - i,
    {
        let rec = observation_csv_record(&rows[i]);
        let ghost before = records@;
        let ghost rv = rec@.map_values(|f: String| f@);
        records.push(rec);
        assert(records_view(records@) =~= records_view(before).push(rv));
        assert(rows@.take(i + 1).map_values(|o: AdminObservationView| spec_observation_csv(o))
            =~= rows@.take(i as int).map_values(
            |o: AdminObservationView| spec_observation_csv(o),
        ).push(spec_observation_csv(rows@[i as int])));
        assert(records_view(records@) =~= seq![observations_csv_header()] + rows@.take(
            i + 1,
        ).map_values(|o: AdminObservationView| spec_observation_csv(o)));
        i = i + 1;
    }
    assert(rows@.take(rows.len() as int) =~= rows@);
    proof {
        let rv = records_view(records@);
        assert(rv[0].len() == 13);
        assert forall|k: int| 0 <= k < rv.len() implies #[trigger] rv[k].len() == rv[0].len() by {
            if k > 0 {
                assert(rv[k] == spec_observation_csv(rows@[k - 1]));
            }
        }
    }
    csv_encode(&records)
}

// ---------- ZIP ----------

/// An in-memory `zip::ZipWriter`. (Verus does not take a declaration of
/// `zip::ZipWriter<W>`, whose parameter is bound by `std::io::Write` and
/// `std::io::Seek`, so the writer is held here, opaque.)
#[verifier::external_body]
pub struct ZipSink {
    inner: zip::ZipWriter<std::io::Cursor<Vec<u8>>>,
}

/// The entries (name, bytes) written so far to a ZIP writer.
pub uninterp spec fn spec_zip_written(w: ZipSink) -> Seq<
    (Seq<char>, Seq<u8>),
>;

/// The ZIP archive (entries deflated, in order) of the given entries.
pub uninterp spec fn spec_zip_archive(entries: Seq<(Seq<char>, Seq<u8>)>) -> Seq<u8>;

/// Calls `zip::ZipWriter::new` on an empty in-memory buffer.
#[verifier::external_body]
fn zip_writer() -> (w: ZipSink)
    ensures
        spec_zip_written(w) == Seq::<(Seq<char>, Seq<u8>)>::empty(),
{
    ZipSink { inner: zip::ZipWriter::new(std::io::Cursor::new(Vec::new())) }
}

/// The largest entry that a writer without the large-file option always
/// takes: its deflated size stays below the 4 GiB limit of plain ZIP.
pub open spec fn zip_entry_size_ok(bytes: Seq<u8>) -> bool {
    bytes.len() < 0x8000_0000
}

/// The names of entries, in order.
pub open spec fn zip_names(es: Seq<(Seq<char>, Seq<u8>)>) -> Seq<Seq<char>> {
    es.map_values(|e: (Seq<char>, Seq<u8>)| e.0)
}

/// Entries that a ZIP writer takes: pairwise distinct names, and every
/// entry small enough.
pub open spec fn zip_entries_ok(es: Seq<(Seq<char>, Seq<u8>)>) -> bool {
    &&& forall|i: int, j: int| 0 <= i < j < es.len() ==> #[trigger] es[i].0 != #[trigger] es[j].0
    &&& forall|i: int| 0 <= i < es.len() ==> zip_entry_size_ok(#[trigger] es[i].1)
}

/// Calls `zip::ZipWriter::start_file` with deflate compression and then
/// `Write::write_all` with `bytes`: on success the archive gains the entry
/// `name` holding `bytes`. The writer refuses a name it already holds and
/// an entry past the 4 GiB limit; writing into the in-memory buffer does
/// not fail otherwise. (A name longer than 65 535 bytes makes it panic.)
#[verifier::external_body]
fn zip_add(w: &mut ZipSink, name: &str, bytes: &[u8]) -> (r: Result<(), String>)
    requires
        encode_utf8(name@).len() <= 65535,
    ensures
        r is Ok ==> spec_zip_written(*final(w)) == spec_zip_written(*old(w)).push((name@, bytes@)),
        !zip_names(spec_zip_written(*old(w))).contains(name@) && zip_entry_size_ok(bytes@) && (
        forall|i: int|
            0 <= i < spec_zip_written(*old(w)).len() ==> zip_entry_size_ok(
                #[trigger] spec_zip_written(*old(w))[i].1,
            )) ==> r is Ok,
{
    let opts = zip::write::SimpleFileOptions::default().compression_method(
        zip::CompressionMethod::Deflated,
    );
    w.inner.start_file(name, opts).map_err(|e| e.to_string())?;
    w.inner.write_all(bytes).map_err(|e| e.to_string())
}

/// Calls `zip::ZipWriter::finish`: the bytes of the archive. With every
/// entry within the size limit, writing the directory into the in-memory
/// buffer does not fail.
#[verifier::external_body]
fn zip_finish(w: ZipSink) -> (r: Result<Vec<u8>, String>)
    ensures
        r matches Ok(b) ==> b@ == spec_zip_archive(spec_zip_written(w)),
        (forall|i: int|
            0 <= i < spec_zip_written(w).len() ==> zip_entry_size_ok(
                #[trigger] spec_zip_written(w)[i].1,
            )) ==> r is Ok,
{
    w.inner.finish().map(|c| c.into_inner()).map_err(|e| e.to_string())
}

/// UTF-8 takes at most four bytes per character.
pub proof fn lemma_utf8_len_bound(s: Seq<char>)
    ensures
        encode_utf8(s).len() <= 4 * s.len(),
    decreases s.len(),
{
    if s.len() > 0 {
        assert(encode_scalar(s[0] as u32).len() <= 4);
        lemma_utf8_len_bound(s.drop_first());
    }
}

/// The names and bytes of archive entries.
pub open spec fn entries_view(es: Seq<(String, Vec<u8>)>) -> Seq<(Seq<char>, Seq<u8>)> {
    es.map_values(|e: (String, Vec<u8>)| (e.0@, e.1@))
}

/// The ZIP archive of `entries`, in order; a failure of the encoder is
/// internal.
pub fn zip_archive(entries: &Vec<(String, Vec<u8>)>) -> (r: Result<Vec<u8>, AppError>)
    requires
        forall|i: int| 0 <= i < entries.len() ==> encode_utf8(#[trigger] entries@[i].0@).len() <= 65535,
    ensures
        r matches Ok(b) ==> b@ == spec_zip_archive(entries_view(entries@)),
        r matches Err(e) ==> e is Internal,
        zip_entries_ok(entries_view(entries@)) ==> r is Ok,
{
    let ghost ev = entries_view(entries@);
    let mut w = zip_writer();
    let mut i: usize = 0;
    while i < entries.len()
        invariant
            i <= entries.len(),
            ev == entries_view(entries@),
            spec_zip_written(w) == entries_view(entries@.take(i as int)),
            forall|k: int| 0 <= k < entries.len() ==> encode_utf8(#[trigger] entries@[k].0@).len() <= 65535,
        decreases entries.len() - i,
    {
        proof {
            assert(encode_utf8(entries@[i as int].0@).len() <= 65535);
            if zip_entries_ok(ev) {
                let wr = spec_zip_written(w);
                assert(wr == ev.take(i as int));
                assert(ev[i as int] == (entries@[i as int].0@, entries@[i as int].1@));
                assert(!zip_names(wr).contains(entries@[i as int].0@)) by {
                    if zip_names(wr).contains(entries@[i as int].0@) {
                        let k = choose|k: int| 0 <= k < zip_names(wr).len() && zip_names(wr)[k] == entries@[i as int].0@;
                        assert(ev[k].0 == ev[i as int].0);
                    }
                }
                assert(zip_entry_size_ok(ev[i as int].1));
                assert forall|k: int| 0 <= k < wr.len() implies zip_entry_size_ok(#[trigger] wr[k].1) by {
                    assert(wr[k] == ev[k]);
                }
            }
        }
        match zip_add(&mut w, entries[i].0.as_str(), entries[i].1.as_slice()) {
            Ok(()) => {},
            Err(m) => {
                return Err(AppError::Internal(concat_str("zip: ", m.as_str())));
            },
        }
        assert(entries_view(entries@.take(i + 1)) =~= entries_view(entries@.take(i as int)).push(
            (entries@[i as int].0@, entries@[i as int].1@),
        ));
        i = i + 1;
    }
    assert(entries@.take(entries.len() as int) =~= entries@);
    proof {
        if zip_entries_ok(ev) {
            assert forall|k: int| 0 <= k < spec_zip_written(w).len() implies zip_entry_size_ok(
                #[trigger] spec_zip_written(w)[k].1,
            ) by {
                assert(spec_zip_written(w)[k] == ev[k]);
            }
        }
    }
    match zip_finish(w) {
        Ok(b) => Ok(b),
        Err(m) => Err(AppError::Internal(concat_str("zip finish: ", m.as_str()))),
    }
}

/// The documents of a user's archive, in order.
pub open spec fn user_archive_names() -> Seq<Seq<char>> {
    seq![
        "user.json"@,
        "machines.json"@,
        "projects.json"@,
        "observations.json"@,
        "shares.json"@,
        "audit.json"@,
    ]
}

/// A user's export archive: the JSON documents of the account, its
/// machines, projects, observations, shares and audit entries, under the
/// names of `user_archive_names`, in that order.
pub fn user_archive(
    user_json: Vec<u8>,
    machines_json: Vec<u8>,
    projects_json: Vec<u8>,
    observations_json: Vec<u8>,
    shares_json: Vec<u8>,
    audit_json: Vec<u8>,
) -> (r: Result<Vec<u8>, AppError>)
    ensures
        r matches Ok(b) ==> b@ == spec_zip_archive(
            seq![
                (user_archive_names()[0], user_json@),
                (user_archive_names()[1], machines_json@),
                (user_archive_names()[2], projects_json@),
                (user_archive_names()[3], observations_json@),
                (user_archive_names()[4], shares_json@),
                (user_archive_names()[5], audit_json@),
            ],
        ),
        r matches Err(e) ==> e is Internal,
        zip_entry_size_ok(user_json@) && zip_entry_size_ok(machines_json@) && zip_entry_size_ok(
            projects_json@,
        ) && zip_entry_size_ok(observations_json@) && zip_entry_size_ok(shares_json@)
            && zip_entry_size_ok(audit_json@) ==> r is Ok,
{
    let ghost docs = seq![user_json@, machines_json@, projects_json@, observations_json@, shares_json@, audit_json@];
    let mut entries: Vec<(String, Vec<u8>)> = Vec::new();
    entries.push((owned("user.json"), user_json));
    entries.push((owned("machines.json"), machines_json));
    entries.push((owned("projects.json"), projects_json));
    entries.push((owned("observations.json"), observations_json));
    entries.push((owned("shares.json"), shares_json));
    entries.push((owned("audit.json"), audit_json));
    assert(entries_view(entries@) =~= seq![
        (user_archive_names()[0], docs[0]),
        (user_archive_names()[1], docs[1]),
        (user_archive_names()[2], docs[2]),
        (user_archive_names()[3], docs[3]),
        (user_archive_names()[4], docs[4]),
        (user_archive_names()[5], docs[5]),
    ]);
    proof {
        reveal_strlit("user.json");
        reveal_strlit("machines.json");
        reveal_strlit("projects.json");
        reveal_strlit("observations.json");
        reveal_strlit("shares.json");
        reveal_strlit("audit.json");
        let ns = user_archive_names();
        assert forall|k: int| 0 <= k < entries.len() implies encode_utf8(
            #[trigger] entries@[k].0@,
        ).len() <= 65535 by {
            assert(entries@[k].0@ == ns[k]);
            assert(ns[k].len() <= 17);
            lemma_utf8_len_bound(ns[k]);
        }
        let ev = entries_view(entries@);
        assert(ns[0][0] == 'u' && ns[1][0] == 'm' && ns[2][0] == 'p' && ns[3][0] == 'o'
            && ns[4][0] == 's' && ns[5][0] == 'a');
        assert forall|a: int, b: int| 0 <= a < b < ev.len() implies #[trigger] ev[a].0
            != #[trigger] ev[b].0 by {
            assert(ev[a].0 == ns[a] && ev[b].0 == ns[b]);
            assert(ns[a][0] != ns[b][0]);
        }
    }
    zip_archive(&entries)
}

/// The download name of a user's archive: `user-<username>-<id>.zip`.
pub fn user_archive_filename(username: &str, id: &str) -> (r: String)
    ensures
        r@ == "user-"@ + username@ + "-"@ + id@ + ".zip"@,
{
    let a = concat_str("user-", username);
    let b = concat_str(a.as_str(), "-");
    let c = concat_str(b.as_str(), id);
    concat_str(c.as_str(), ".zip")
}

/// The `Content-Disposition` value of a download.
pub fn attachment_disposition(filename: &str) -> (r: String)
    ensures
        r@ == "attachment; filename=\""@ + filename@ + "\""@,
{
    let a = concat_str("attachment; filename=\"", filename);
    concat_str(a.as_str(), "\"")
}

// ---------- gzip ----------

/// The gzip stream (default level) of a byte string.
pub uninterp spec fn spec_gzip(data: Seq<u8>) -> Seq<u8>;

/// Calls `flate2::write::GzEncoder::new` with the default level on an empty
/// buffer, `Write::write_all` with `data` and `GzEncoder::finish`: the
/// compressed stream. Compressing into a `Vec` does not fail.
#[verifier::external_body]
fn gzip_encode(data: &[u8]) -> (r: Result<Vec<u8>, String>)
    ensures
        r matches Ok(b) ==> b@ == spec_gzip(data@),
        r is Ok,
{
    let mut enc = flate2::write::GzEncoder::new(Vec::new(), flate2::Compression::default());
    enc.write_all(data).map_err(|e| e.to_string())?;
    enc.finish().map_err(|e| e.to_string())
}

/// The gzip compression of a database copy.
pub fn gzip_bytes(data: &[u8]) -> (r: Result<Vec<u8>, AppError>)
    ensures
        r matches Ok(b) ==> b@ == spec_gzip(data@),
        r is Ok,
{
    match gzip_encode(data) {
        Ok(b) => Ok(b),
        Err(m) => Err(AppError::Internal(concat_str("gzip: ", m.as_str()))),
    }
}

} // verus!
