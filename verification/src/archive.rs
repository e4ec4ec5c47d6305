//! The persisted token archive: a zip file with one JSON entry per cohort.
//!
//! Entry `cohort_{i}.json` holds the token list of cohort `i` as a JSON
//! array of strings; cohorts are numbered consecutively from 0. The zip and
//! JSON decoders are outside code: their results are pure functions of the
//! input bytes and are named here, and every contract speaks of the names.

use vstd::prelude::*;
use vstd::seq_lib::seq_to_set_is_finite;

use std::io::Read;

use crate::decimal::dec_digits;
use crate::decimal::u64_to_string;
use crate::errors::ResponseError;

verus! {

#[verifier::external_type_specification]
#[verifier::external_body]
#[verifier::reject_recursive_types(T)]
pub struct ExCursor<T>(std::io::Cursor<T>);

#[verifier::external_type_specification]
#[verifier::external_body]
#[verifier::reject_recursive_types(R)]
pub struct ExZipArchive<R>(zip::ZipArchive<R>);

/// What an in-memory zip archive holds: entry name to entry bytes.
pub uninterp spec fn archive_entries(a: zip::ZipArchive<std::io::Cursor<Vec<u8>>>) -> Map<
    Seq<char>,
    Seq<u8>,
>;

/// The names of the archive's entries that read to completion: present,
/// not encrypted, and decompressing without error. Reading is a pure
/// computation on the archive's bytes, so this set is well defined.
pub uninterp spec fn archive_readable(a: zip::ZipArchive<std::io::Cursor<Vec<u8>>>) -> Set<
    Seq<char>,
>;

/// What parsing a byte string as a zip archive yields, if it is one.
pub uninterp spec fn zip_map_of(bytes: Seq<u8>) -> Option<Map<Seq<char>, Seq<u8>>>;

/// Which entry names of a byte string's archive read to completion.
pub uninterp spec fn zip_readable_of(bytes: Seq<u8>) -> Set<Seq<char>>;

/// What parsing a byte string as a JSON array of strings yields, if it is
/// one.
pub uninterp spec fn json_tokens_of(bytes: Seq<u8>) -> Option<Seq<Seq<char>>>;

/// Relies on zip::ZipArchive::new: reads the archive's directory from the
/// bytes, a function of them alone; on failure returns the decoder's
/// reason.
#[verifier::external_body]
fn open_archive(bytes: &Vec<u8>) -> (r: Result<zip::ZipArchive<std::io::Cursor<Vec<u8>>>, String>)
    ensures
        r is Ok <==> zip_map_of(bytes@) is Some,
        r is Ok ==> archive_entries(r->Ok_0) == zip_map_of(bytes@)->Some_0,
        r is Ok ==> archive_readable(r->Ok_0) == zip_readable_of(bytes@),
{
    zip::ZipArchive::new(std::io::Cursor::new(bytes.clone())).map_err(|e| format!("{}", e))
}

/// Relies on zip::ZipArchive::file_names: the names of all entries, each
/// once; their order follows a hash map's iteration and is not specified.
#[verifier::external_body]
fn entry_names(a: &zip::ZipArchive<std::io::Cursor<Vec<u8>>>) -> (r: Vec<String>)
    ensures
        forall|i: int|
            0 <= i < r@.len() ==> archive_entries(*a).dom().contains(#[trigger] r@[i]@),
        forall|t: Seq<char>|
            archive_entries(*a).dom().contains(t) ==> exists|i: int|
                0 <= i < r@.len() && #[trigger] r@[i]@ == t,
        forall|i: int, j: int| 0 <= i < j < r@.len() ==> (#[trigger] r@[i]@) != (#[trigger] r@[j]@),
{
    a.file_names().map(|s| s.to_owned()).collect()
}

/// Relies on zip::ZipArchive::by_name_decrypt: finds the named entry and,
/// unlike the unwrapping by_name, returns the archive's refusal of an
/// encrypted or mismatched entry as a value (a supplied password is
/// discarded for plain entries, so plain entries are unaffected). Reading
/// the returned entry to its end converts it to its bytes; it succeeds
/// exactly on the archive's readable entries. The archive's contents are
/// unchanged.
#[verifier::external_body]
fn read_entry(a: &mut zip::ZipArchive<std::io::Cursor<Vec<u8>>>, name: &String) -> (r: Result<
    Vec<u8>,
    String,
>)
    ensures
        archive_entries(*final(a)) == archive_entries(*old(a)),
        archive_readable(*final(a)) == archive_readable(*old(a)),
        r is Ok <==> archive_readable(*old(a)).contains(name@),
        r is Ok ==> archive_entries(*old(a)).dom().contains(name@) && r->Ok_0@ == archive_entries(
            *old(a),
        )[name@],
{
    let mut file = match a.by_name_decrypt(name.as_str(), &[]) {
        Ok(Ok(f)) => f,
        Ok(Err(e)) => return Err(format!("{}", e)),
        Err(e) => return Err(format!("{}", e)),
    };
    let mut buffer = Vec::new();
    if let Err(e) = file.read_to_end(&mut buffer) {
        return Err(format!("{}", e));
    }
    Ok(buffer)
}

/// Relies on serde_json::from_slice::<Vec<String>>: parses the bytes as a
/// JSON array of strings exactly when they are one, a function of the
/// bytes alone; on failure returns the parser's reason.
#[verifier::external_body]
fn parse_token_list(bytes: &Vec<u8>) -> (r: Result<Vec<String>, String>)
    ensures
        r is Ok <==> json_tokens_of(bytes@) is Some,
        r is Ok ==> r->Ok_0.deep_view() == json_tokens_of(bytes@)->Some_0,
{
    serde_json::from_slice::<Vec<String>>(bytes.as_slice()).map_err(|e| format!("{}", e))
}

/// The entry name of cohort `i`: `cohort_{i}.json`.
pub open spec fn spec_cohort_file_name(i: int) -> Seq<char> {
    "cohort_"@ + dec_digits(i) + ".json"@
}

/// Distinct cohorts have distinct entry names.
proof fn lemma_cohort_file_name_injective(i: int, j: int)
    requires
        0 <= i,
        0 <= j,
        spec_cohort_file_name(i) == spec_cohort_file_name(j),
    ensures
        i == j,
{
    reveal_strlit("cohort_");
    reveal_strlit(".json");
    crate::decimal::lemma_dec_digits_value(i);
    crate::decimal::lemma_dec_digits_value(j);
    let di = dec_digits(i);
    let dj = dec_digits(j);
    let si = spec_cohort_file_name(i);
    let sj = spec_cohort_file_name(j);
    assert(si.len() == 7 + di.len() + 5);
    assert(sj.len() == 7 + dj.len() + 5);
    assert forall|k: int| 0 <= k < di.len() implies di[k] == dj[k] by {
        assert(si[7 + k] == di[k]);
        assert(sj[7 + k] == dj[k]);
    }
    assert(di =~= dj);
}

/// Builds the entry name of cohort `i`.
pub fn cohort_file_name(i: u64) -> (r: String)
    ensures
        r@ == spec_cohort_file_name(i as int),
{
    let mut s = "cohort_".to_owned();
    s.append(u64_to_string(i).as_str());
    s.append(".json");
    s
}

fn names_contain(names: &Vec<String>, name: &String) -> (r: bool)
    ensures
        r == exists|i: int| 0 <= i < names@.len() && (#[trigger] names@[i]@) == name@,
{
    let n = names.len();
    let mut i: usize = 0;
    while i < n
        invariant
            0 <= i <= n,
            n == names@.len(),
            forall|j: int| 0 <= j < i ==> (#[trigger] names@[j]@) != name@,
        decreases n - i,
    {
        if names[i].eq(name) {
            return true;
        }
        i += 1;
    }
    false
}

/// Whether an archive's directory holds every cohort entry up to `k`.
pub open spec fn consecutive_cohorts(m: Map<Seq<char>, Seq<u8>>, k: int) -> bool {
    forall|j: int| 0 <= j <= k ==> m.dom().contains(#[trigger] spec_cohort_file_name(j))
}

/// Whether a byte string is a well-formed token archive: a zip whose
/// consecutive cohort entries are all readable and parse as JSON string
/// arrays.
pub open spec fn spec_token_archive_ok(bytes: Seq<u8>) -> bool {
    &&& zip_map_of(bytes) is Some
    &&& (forall|k: int|
        #![trigger spec_cohort_file_name(k)]
        0 <= k && consecutive_cohorts(zip_map_of(bytes)->Some_0, k) ==> zip_readable_of(
            bytes,
        ).contains(spec_cohort_file_name(k)) && json_tokens_of(
            zip_map_of(bytes)->Some_0[spec_cohort_file_name(k)],
        ) is Some)
}

/// Reads a token archive into one token list per cohort.
///
/// Succeeds exactly on well-formed token archives; then cohort `k` of the
/// result is the parsed `cohort_{k}.json` entry, for consecutive `k` from
/// 0, and no further consecutive entry exists. Bytes that are no zip
/// archive and an unreadable entry are I/O failures; an entry that is no
/// JSON array of strings is a deserialization failure.
pub fn parse_token_archive(bytes: &Vec<u8>) -> (r: Result<Vec<Vec<String>>, ResponseError>)
    ensures
        r is Ok <==> spec_token_archive_ok(bytes@),
        r is Ok ==> ({
            let m = zip_map_of(bytes@)->Some_0;
            let cohorts = r->Ok_0;
            &&& forall|k: int|
                #![trigger spec_cohort_file_name(k)]
                0 <= k < cohorts@.len() ==> m.dom().contains(spec_cohort_file_name(k))
                    && zip_readable_of(bytes@).contains(spec_cohort_file_name(k))
                    && json_tokens_of(m[spec_cohort_file_name(k)]) is Some
                    && cohorts@[k].deep_view() == json_tokens_of(
                    m[spec_cohort_file_name(k)],
                )->Some_0
            &&& !m.dom().contains(spec_cohort_file_name(cohorts@.len() as int))
        }),
        r is Err ==> (r->Err_0 is IoError || r->Err_0 is SerdeError),
        zip_map_of(bytes@) is None ==> r is Err && r->Err_0 is IoError,
{
    broadcast use seq_to_set_is_finite;

    let mut archive = match open_archive(bytes) {
        Ok(a) => a,
        Err(e) => {
            return Err(ResponseError::IoError(e));
        },
    };
    let names = entry_names(&archive);
    let count = names.len();
    let ghost m = zip_map_of(bytes@)->Some_0;
    let mut cohorts: Vec<Vec<String>> = Vec::new();
    let mut i: usize = 0;
    while i < count
        invariant
            0 <= i <= count,
            count == names@.len(),
            zip_map_of(bytes@) is Some,
            m == zip_map_of(bytes@)->Some_0,
            archive_entries(archive) == m,
            archive_readable(archive) == zip_readable_of(bytes@),
            forall|j: int| 0 <= j < names@.len() ==> m.dom().contains(#[trigger] names@[j]@),
            forall|t: Seq<char>|
                m.dom().contains(t) ==> exists|j: int|
                    0 <= j < names@.len() && #[trigger] names@[j]@ == t,
            forall|j: int, j2: int|
                0 <= j < j2 < names@.len() ==> (#[trigger] names@[j]@) != (#[trigger] names@[j2]@),
            cohorts@.len() == i,
            forall|k: int|
                #![trigger spec_cohort_file_name(k)]
                0 <= k < i ==> m.dom().contains(spec_cohort_file_name(k)) && zip_readable_of(
                    bytes@,
                ).contains(spec_cohort_file_name(k)) && json_tokens_of(
                    m[spec_cohort_file_name(k)],
                ) is Some && cohorts@[k].deep_view() == json_tokens_of(
                    m[spec_cohort_file_name(k)],
                )->Some_0,
        decreases count - i,
    {
        let name = cohort_file_name(i as u64);
        if !names_contain(&names, &name) {
            proof {
                if m.dom().contains(name@) {
                    assert(exists|j: int| 0 <= j < names@.len() && #[trigger] names@[j]@ == name@);
                    assert(false);
                }
                assert(!m.dom().contains(spec_cohort_file_name(i as int)));
                lemma_prefix_is_token_archive_ok(bytes@, i as int);
            }
            return Ok(cohorts);
        }
        proof {
            assert(m.dom().contains(name@));
        }
        let entry = match read_entry(&mut archive, &name) {
            Ok(b) => b,
            Err(e) => {
                proof {
                    assert(!spec_token_archive_ok(bytes@)) by {
                        if spec_token_archive_ok(bytes@) {
                            assert(consecutive_cohorts(m, i as int));
                            assert(zip_readable_of(bytes@).contains(
                                spec_cohort_file_name(i as int),
                            ));
                        }
                    }
                }
                return Err(ResponseError::IoError(e));
            },
        };
        let tokens = match parse_token_list(&entry) {
            Ok(t) => t,
            Err(e) => {
                proof {
                    assert(!spec_token_archive_ok(bytes@)) by {
                        if spec_token_archive_ok(bytes@) {
                            assert(consecutive_cohorts(m, i as int));
                            assert(json_tokens_of(m[spec_cohort_file_name(i as int)]) is Some);
                        }
                    }
                }
                return Err(ResponseError::SerdeError(e));
            },
        };
        proof {
            assert(entry@ == m[spec_cohort_file_name(i as int)]);
            assert(tokens.deep_view() == json_tokens_of(m[spec_cohort_file_name(i as int)])->Some_0);
        }
        cohorts.push(tokens);
        i += 1;
    }
    // Every entry was consumed as a consecutive cohort file; were the next
    // cohort's name also present, the archive would hold more distinct
    // cohort names than it has entries.
    proof {
        let n = count as int;
        if m.dom().contains(spec_cohort_file_name(n)) {
            let nv = Seq::new(names@.len(), |x: int| names@[x]@);
            assert(nv.no_duplicates());
            let cn = Seq::new((n + 1) as nat, |k: int| spec_cohort_file_name(k));
            assert(cn.no_duplicates()) by {
                assert forall|x: int, y: int|
                    0 <= x < cn.len() && 0 <= y < cn.len() && x != y implies cn[x] != cn[y] by {
                    if cn[x] == cn[y] {
                        lemma_cohort_file_name_injective(x, y);
                    }
                }
            }
            nv.unique_seq_to_set();
            cn.unique_seq_to_set();
            assert forall|t: Seq<char>| cn.to_set().contains(t) implies nv.to_set().contains(
                t,
            ) by {
                let k = choose|k: int| 0 <= k < cn.len() && cn[k] == t;
                assert(m.dom().contains(spec_cohort_file_name(k)));
                let idx = choose|idx: int|
                    0 <= idx < names@.len() && #[trigger] names@[idx]@ == t;
                assert(nv[idx] == t);
            }
            vstd::set_lib::lemma_len_subset(cn.to_set(), nv.to_set());
            assert(false);
        }
        lemma_prefix_is_token_archive_ok(bytes@, n);
    }
    Ok(cohorts)
}

/// If every cohort entry below `n` is readable and parses, and entry `n`
/// is absent, the whole archive is a well-formed token archive.
proof fn lemma_prefix_is_token_archive_ok(bytes: Seq<u8>, n: int)
    requires
        0 <= n,
        zip_map_of(bytes) is Some,
        forall|k: int|
            #![trigger spec_cohort_file_name(k)]
            0 <= k < n ==> zip_map_of(bytes)->Some_0.dom().contains(spec_cohort_file_name(k))
                && zip_readable_of(bytes).contains(spec_cohort_file_name(k)) && json_tokens_of(
                zip_map_of(bytes)->Some_0[spec_cohort_file_name(k)],
            ) is Some,
        !zip_map_of(bytes)->Some_0.dom().contains(spec_cohort_file_name(n)),
    ensures
        spec_token_archive_ok(bytes),
{
    let m = zip_map_of(bytes)->Some_0;
    assert forall|k: int|
        0 <= k && consecutive_cohorts(m, k) implies zip_readable_of(bytes).contains(
        #[trigger] spec_cohort_file_name(k),
    ) && json_tokens_of(m[spec_cohort_file_name(k)]) is Some by {
        if k >= n {
            assert(m.dom().contains(spec_cohort_file_name(n)));
        }
    }
}

} // verus!
