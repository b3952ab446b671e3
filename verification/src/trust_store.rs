//! The trust store of a sandbox: the system's CA certificates and the sandbox's own.

use rustls::pki_types::CertificateDer;
use vstd::prelude::*;
use vstd::utf8::{encode_scalar, encode_utf8};

use crate::ca::{is_pem_of, SandboxCa};
use crate::error::TlsError;
use crate::pki::{
    certificate_bytes, chain_bytes, pem_certificates, read_pem, readable, reads_as, up_to_new_line,
    MAX_PEM_TEXT,
};

verus! {

/// Where Linux systems keep their CA bundle.
pub const SYSTEM_CA_PATHS: [&'static str; 4] = [
    "/etc/ssl/certs/ca-certificates.crt",  // Debian/Ubuntu
    "/etc/pki/tls/certs/ca-bundle.crt",  // RHEL/CentOS/Fedora
    "/etc/ssl/ca-bundle.pem",  // openSUSE
    "/etc/ssl/cert.pem",  // Alpine/macOS
];

/// File name of the standalone CA certificate.
pub const CA_CERT_FILE: &'static str = "openshell-ca.pem";

/// File name of the combined bundle.
pub const CA_BUNDLE_FILE: &'static str = "ca-bundle.pem";

/// A search for the system's CA bundle, one path after the other.
pub enum BundleSearch {
    /// The path with this index is to be read.
    Try(usize),
    /// The search is over, with this bundle.
    Done(String),
}

/// How far a search is.
pub enum SearchState {
    Try(int),
    Done(Seq<char>),
}

/// The state of a search after the path with the given index was read:
/// `contents` is what it held, if it could be read. Text ends the search; with
/// no path left, it ends with an empty bundle.
pub open spec fn after_read(index: int, contents: Option<Seq<char>>) -> SearchState {
    match contents {
        Some(text) if text.len() > 0 => SearchState::Done(text),
        _ => if index + 1 < SYSTEM_CA_PATHS@.len() {
            SearchState::Try(index + 1)
        } else {
            SearchState::Done(Seq::empty())
        },
    }
}

/// What was read, if anything, as text.
pub open spec fn text_read(contents: Option<String>) -> Option<Seq<char>> {
    match contents {
        Some(text) => Some(text@),
        None => None,
    }
}

impl View for BundleSearch {
    type V = SearchState;

    open spec fn view(&self) -> SearchState {
        match self {
            BundleSearch::Try(index) => SearchState::Try(*index as int),
            BundleSearch::Done(bundle) => SearchState::Done(bundle@),
        }
    }
}

impl BundleSearch {
    /// Starts with the first path.
    pub fn start() -> (search: Self)
        ensures
            search@ == SearchState::Try(0),
    {
        BundleSearch::Try(0)
    }

    /// The path that is to be read next, while the search goes on.
    pub fn path(&self) -> (path: Option<&'static str>)
        ensures
            path == (match self@ {
                SearchState::Try(index) if index < SYSTEM_CA_PATHS@.len() => Some(
                    SYSTEM_CA_PATHS@[index],
                ),
                _ => None,
            }),
    {
        match self {
            BundleSearch::Try(index) => if *index < SYSTEM_CA_PATHS.len() {
                Some(SYSTEM_CA_PATHS[*index])
            } else {
                None
            },
            BundleSearch::Done(_) => None,
        }
    }

    /// Goes on after the path was read.
    pub fn on_read(self, contents: Option<String>) -> (search: Self)
        ensures
            search@ == (match self@ {
                SearchState::Try(index) => after_read(index, text_read(contents)),
                SearchState::Done(bundle) => SearchState::Done(bundle),
            }),
    {
        match self {
            BundleSearch::Try(index) => {
                if let Some(text) = contents {
                    if !text.as_str().is_empty() {
                        return BundleSearch::Done(text);
                    }
                }
                if index < SYSTEM_CA_PATHS.len() - 1 {
                    BundleSearch::Try(index + 1)
                } else {
                    BundleSearch::Done(String::new())
                }
            },
            BundleSearch::Done(bundle) => BundleSearch::Done(bundle),
        }
    }

    /// The bundle that was found; empty while the search goes on.
    pub fn into_bundle(self) -> (bundle: String)
        ensures
            bundle@ == (match self@ {
                SearchState::Done(bundle) => bundle,
                SearchState::Try(_) => Seq::empty(),
            }),
    {
        match self {
            BundleSearch::Done(bundle) => bundle,
            BundleSearch::Try(_) => String::new(),
        }
    }
}

/// The bundle that a search ends with, from the path with the given index on.
/// `contents` gives what each path holds, where it can be read.
pub open spec fn search_result(index: int, contents: Seq<Option<Seq<char>>>) -> Seq<char>
    decreases SYSTEM_CA_PATHS@.len() - index,
{
    if 0 <= index < SYSTEM_CA_PATHS@.len() {
        match after_read(index, contents[index]) {
            SearchState::Done(bundle) => bundle,
            SearchState::Try(next) => if next > index {
                search_result(next, contents)
            } else {
                Seq::empty()
            },
        }
    } else {
        Seq::empty()
    }
}

/// Where a search is after so many reads of the paths that it asked for.
/// `contents` gives what each path holds, where it can be read.
pub open spec fn search_after(
    search: SearchState,
    contents: Seq<Option<Seq<char>>>,
    reads: nat,
) -> SearchState
    decreases reads,
{
    match search {
        SearchState::Try(index) if reads > 0 && 0 <= index < SYSTEM_CA_PATHS@.len() => search_after(
            after_read(index, contents[index]),
            contents,
            (reads - 1) as nat,
        ),
        _ => search,
    }
}

/// A path holds a bundle: it can be read and is not empty.
pub open spec fn holds_bundle(contents: Option<Seq<char>>) -> bool {
    contents matches Some(text) && text.len() > 0
}

/// A search ends with the first bundle among the paths.
pub proof fn search_finds_first_bundle(contents: Seq<Option<Seq<char>>>, k: int)
    requires
        contents.len() == SYSTEM_CA_PATHS@.len(),
        0 <= k < contents.len(),
        holds_bundle(contents[k]),
        forall|j: int| 0 <= j < k ==> !holds_bundle(#[trigger] contents[j]),
    ensures
        search_result(0, contents) == contents[k]->0,
{
    lemma_search_from(0, contents, k);
}

proof fn lemma_search_from(index: int, contents: Seq<Option<Seq<char>>>, k: int)
    requires
        contents.len() == SYSTEM_CA_PATHS@.len(),
        0 <= index <= k < contents.len(),
        holds_bundle(contents[k]),
        forall|j: int| index <= j < k ==> !holds_bundle(#[trigger] contents[j]),
    ensures
        search_result(index, contents) == contents[k]->0,
    decreases k - index,
{
    if index < k {
        assert(!holds_bundle(contents[index]));
        lemma_search_from(index + 1, contents, k);
    }
}

/// Where no path holds a bundle, a search ends with an empty one.
pub proof fn search_without_bundle_is_empty(contents: Seq<Option<Seq<char>>>)
    requires
        contents.len() == SYSTEM_CA_PATHS@.len(),
        forall|j: int| 0 <= j < contents.len() ==> !holds_bundle(#[trigger] contents[j]),
    ensures
        search_result(0, contents) == Seq::<char>::empty(),
{
    lemma_empty_from(0, contents);
}

proof fn lemma_empty_from(index: int, contents: Seq<Option<Seq<char>>>)
    requires
        contents.len() == SYSTEM_CA_PATHS@.len(),
        0 <= index <= contents.len(),
        forall|j: int| index <= j < contents.len() ==> !holds_bundle(#[trigger] contents[j]),
    ensures
        search_result(index, contents) == Seq::<char>::empty(),
    decreases contents.len() - index,
{
    if index < contents.len() {
        assert(!holds_bundle(contents[index]));
        lemma_empty_from(index + 1, contents);
    }
}

/// The bundle of the system and the sandbox: the system's certificates, ended
/// by a line break, and the sandbox CA.
pub open spec fn combined(system: Seq<char>, ca_pem: Seq<char>) -> Seq<char> {
    if system.len() > 0 && system.last() != '\n' {
        system.push('\n') + ca_pem
    } else {
        system + ca_pem
    }
}

/// Whether the character is the last one of the text.
fn ends_with_char(text: &str, c: char) -> (ends: bool)
    ensures
        ends == (text@.len() > 0 && text@.last() == c),
{
    let n = text.unicode_len();
    n > 0 && text.get_char(n - 1) == c
}

/// Appends the sandbox CA to the system's bundle.
pub fn combined_bundle(system: String, ca_pem: &str) -> (bundle: String)
    ensures
        bundle@ == combined(system@, ca_pem@),
{
    let mut bundle = system;
    if !bundle.as_str().is_empty() && !ends_with_char(bundle.as_str(), '\n') {
        proof {
            reveal_strlit("\n");
        }
        bundle.append("\n");
        assert(bundle@ =~= system@.push('\n'));
    }
    bundle.append(ca_pem);
    bundle
}

/// A file of the trust store.
pub struct CaFile {
    pub name: &'static str,
    pub contents: String,
}

/// The standalone CA certificate, for `NODE_EXTRA_CA_CERTS`, which is additive.
/// It reads as the CA and nothing else.
pub fn ca_cert_file(ca: &SandboxCa) -> (file: CaFile)
    ensures
        file.name@ == CA_CERT_FILE@,
        file.contents@ == ca.pem(),
        ca.pem().len() <= MAX_PEM_TEXT ==> pem_certificates(
            encode_utf8(file.contents@),
        ) == seq![Some(ca.certificate().der)],
{
    CaFile { name: CA_CERT_FILE, contents: ca.cert_pem().to_string() }
}

/// The combined bundle, for `SSL_CERT_FILE`, which replaces the default. It reads
/// as the system's certificates, where those can be read, and then the CA.
pub fn ca_bundle_file(ca: &SandboxCa, system: String) -> (file: CaFile)
    ensures
        file.name@ == CA_BUNDLE_FILE@,
        file.contents@ == combined(system@, ca.pem()),
        ca.pem().len() <= MAX_PEM_TEXT ==> {
            let found = pem_certificates(encode_utf8(file.contents@));
            let der = ca.certificate().der;
            &&& system@.len() == 0 ==> found == seq![Some(der)]
            &&& readable(encode_utf8(system@)) ==> found == pem_certificates(
                encode_utf8(system@),
            ).push(Some(der))
        },
{
    let ca_pem = ca.cert_pem();
    proof {
        if ca.pem().len() <= MAX_PEM_TEXT {
            bundle_reads_as_both(system@, ca_pem@, ca.certificate().der);
        }
    }
    CaFile { name: CA_BUNDLE_FILE, contents: combined_bundle(system, ca_pem) }
}

/// The combined bundle keeps the system's certificates and ends with the
/// sandbox CA, which starts on a line of its own.
pub proof fn bundle_holds_both(system: Seq<char>, ca_pem: Seq<char>)
    ensures
        system.is_prefix_of(combined(system, ca_pem)),
        ca_pem.is_suffix_of(combined(system, ca_pem)),
        ({
            let start = combined(system, ca_pem).len() - ca_pem.len();
            start == 0 || combined(system, ca_pem)[start - 1] == '\n'
        }),
{
    let bundle = combined(system, ca_pem);
    assert(bundle.subrange(0, system.len() as int) =~= system);
    assert(bundle.subrange(bundle.len() - ca_pem.len(), bundle.len() as int) =~= ca_pem);
}

/// Without a system bundle, the combined one is the sandbox CA alone.
pub proof fn bundle_without_system_is_ca(ca_pem: Seq<char>)
    ensures
        combined(Seq::empty(), ca_pem) == ca_pem,
{
    assert(Seq::<char>::empty() + ca_pem =~= ca_pem);
}

proof fn lemma_encode_concat(a: Seq<char>, b: Seq<char>)
    ensures
        encode_utf8(a + b) == encode_utf8(a) + encode_utf8(b),
    decreases a.len(),
{
    if a.len() == 0 {
        assert(a + b =~= b);
        assert(encode_utf8(a) + encode_utf8(b) =~= encode_utf8(b));
    } else {
        assert((a + b).drop_first() =~= a.drop_first() + b);
        lemma_encode_concat(a.drop_first(), b);
        let head = encode_scalar(a[0] as u32);
        assert(head + (encode_utf8(a.drop_first()) + encode_utf8(b)) =~= (head + encode_utf8(
            a.drop_first(),
        )) + encode_utf8(b));
    }
}

/// The encoding of one character, which ends with a line break only where the
/// character is one.
proof fn lemma_encode_char(c: char)
    ensures
        encode_utf8(seq![c]).len() > 0,
        encode_utf8(seq![c]).last() == 0x0a <==> c == '\n',
        c == '\n' ==> encode_utf8(seq![c]) == seq![0x0au8],
{
    reveal_with_fuel(encode_utf8, 2);
    let u = c as u32;
    assert(encode_utf8(seq![c]) =~= encode_scalar(u));
    assert(u <= 0x7f ==> ((u & 0x7f) as u8 == 0x0a <==> u == 0x0a)) by (bit_vector);
    assert(0x80 | (u & 0x3f) as u8 != 0x0a) by (bit_vector);
}

/// Ending a text with a line break and encoding it can be done in any order.
proof fn lemma_encode_up_to_new_line(text: Seq<char>)
    ensures
        up_to_new_line(encode_utf8(text)) == encode_utf8(
            if text.len() > 0 && text.last() != '\n' {
                text.push('\n')
            } else {
                text
            },
        ),
{
    if text.len() > 0 {
        let last = seq![text.last()];
        assert(text =~= text.drop_last() + last);
        lemma_encode_concat(text.drop_last(), last);
        lemma_encode_char(text.last());
        if text.last() != '\n' {
            assert(text.push('\n') =~= text + seq!['\n']);
            lemma_encode_concat(text, seq!['\n']);
            lemma_encode_char('\n');
            assert(up_to_new_line(encode_utf8(text)) =~= encode_utf8(text) + seq![0x0au8]);
        }
    }
}

/// The combined bundle reads as the system's certificates, where its text can be
/// read, and then the sandbox CA; without a system bundle, as the CA alone.
pub proof fn bundle_reads_as_both(system: Seq<char>, ca_pem: Seq<char>, der: Seq<u8>)
    requires
        reads_as(encode_utf8(ca_pem), der),
    ensures
        system.len() == 0 ==> pem_certificates(encode_utf8(combined(system, ca_pem))) == seq![
            Some(der),
        ],
        readable(encode_utf8(system)) ==> pem_certificates(encode_utf8(combined(system, ca_pem)))
            == pem_certificates(encode_utf8(system)).push(Some(der)),
{
    if system.len() == 0 {
        assert(combined(system, ca_pem) =~= ca_pem);
    }
    lemma_encode_up_to_new_line(system);
    if system.len() > 0 && system.last() != '\n' {
        lemma_encode_concat(system.push('\n'), ca_pem);
    } else {
        lemma_encode_concat(system, ca_pem);
    }
}

/// Parsing the CA files gives back the certificates: of the standalone file the
/// CA alone; of the combined bundle every certificate of the system, and then
/// the CA. `system_certs` is what the system's bundle parses to, if there is one.
pub proof fn ca_files_parse_back(
    ca: SandboxCa,
    system: Seq<char>,
    system_certs: Vec<CertificateDer<'static>>,
    cert_file: Result<Vec<CertificateDer<'static>>, TlsError>,
    bundle_file: Result<Vec<CertificateDer<'static>>, TlsError>,
)
    requires
        is_pem_of(ca.pem(), ca.certificate().der),
        ca.pem().len() <= MAX_PEM_TEXT,
        if system.len() == 0 {
            system_certs@.len() == 0
        } else {
            parses_to(encode_utf8(system), Ok(system_certs))
        },
        parses_to(encode_utf8(ca.pem()), cert_file),
        parses_to(encode_utf8(combined(system, ca.pem())), bundle_file),
    ensures
        cert_file matches Ok(certs) && chain_bytes(certs@) == seq![ca.certificate().der],
        bundle_file matches Ok(certs) && chain_bytes(certs@) == chain_bytes(system_certs@).push(
            ca.certificate().der,
        ),
{
    let der = ca.certificate().der;
    lemma_parsed(encode_utf8(ca.pem()), cert_file, seq![der]);
    bundle_reads_as_both(system, ca.pem(), der);
    if system.len() > 0 {
        assert(readable(encode_utf8(system)));
    }
    lemma_parsed(
        encode_utf8(combined(system, ca.pem())),
        bundle_file,
        chain_bytes(system_certs@).push(der),
    );
}

/// A PEM text whose sections all can be read parses to its certificates.
proof fn lemma_parsed(
    pem: Seq<u8>,
    certs: Result<Vec<CertificateDer<'static>>, TlsError>,
    ders: Seq<Seq<u8>>,
)
    requires
        parses_to(pem, certs),
        pem_certificates(pem) =~= all_read(ders),
    ensures
        certs matches Ok(certs) && chain_bytes(certs@) == ders,
{
    assert(readable(pem));
    if let Ok(certs) = certs {
        let found = chain_bytes(certs@);
        assert(all_read(found).len() == found.len() && all_read(ders).len() == ders.len());
        assert forall|i: int| 0 <= i < ders.len() implies found[i] == ders[i] by {
            assert(all_read(found)[i] == all_read(ders)[i]);
        }
        assert(found =~= ders);
    }
}

/// All the certificates that were read, or the first error.
pub fn collect_certs(items: Vec<Result<CertificateDer<'static>, std::io::Error>>) -> (certs: Result<
    Vec<CertificateDer<'static>>,
    TlsError,
>)
    ensures
        match certs {
            Ok(certs) => {
                &&& certs@.len() == items@.len()
                &&& forall|i: int|
                    0 <= i < items@.len() ==> #[trigger] items@[i] == Ok::<
                        CertificateDer<'static>,
                        std::io::Error,
                    >(certs@[i])
            },
            Err(e) => exists|k: int|
                {
                    &&& 0 <= k < items@.len()
                    &&& (#[trigger] items@[k]) matches Err(error)
                    &&& e == TlsError::Pem(error)
                    &&& forall|j: int| 0 <= j < k ==> (#[trigger] items@[j]) is Ok
                },
        },
{
    let mut certs: Vec<CertificateDer<'static>> = Vec::new();
    for item in reading: items
        invariant
            reading.seq() == items@,
            certs@.len() == reading.index(),
            forall|j: int|
                0 <= j < reading.index() ==> #[trigger] items@[j] == Ok::<
                    CertificateDer<'static>,
                    std::io::Error,
                >(certs@[j]),
    {
        match item {
            Ok(certificate) => certs.push(certificate),
            Err(error) => {
                assert(items@[reading.index() as int] is Err);
                return Err(TlsError::Pem(error));
            },
        }
    }
    Ok(certs)
}

/// Certificates each of which was read.
pub open spec fn all_read(ders: Seq<Seq<u8>>) -> Seq<Option<Seq<u8>>> {
    ders.map_values(|der: Seq<u8>| Some(der))
}

/// `certs` is what parsing the PEM text gives: the certificates in order where
/// each section can be read, an error where one cannot.
pub open spec fn parses_to(
    pem: Seq<u8>,
    certs: Result<Vec<CertificateDer<'static>>, TlsError>,
) -> bool {
    match certs {
        Ok(certs) => pem_certificates(pem) == all_read(chain_bytes(certs@)),
        Err(e) => e is Pem && !readable(pem),
    }
}

/// `read_pem` gave the items for the text.
pub closed spec fn reading_gave(
    pem: &[u8],
    items: Vec<Result<CertificateDer<'static>, std::io::Error>>,
) -> bool {
    call_ensures(read_pem, (pem,), items)
}

/// What was read comes from the call of `read_pem` with the same text.
proof fn items_come_from_the_text(
    pem: &[u8],
    items: Vec<Result<CertificateDer<'static>, std::io::Error>>,
)
    ensures
        reading_gave(pem, items) == call_ensures(read_pem, (pem,), items),
{
}

/// Parses the certificates of a PEM text into DER.
pub fn parse_pem_certs(pem: &[u8]) -> (certs: Result<Vec<CertificateDer<'static>>, TlsError>)
    ensures
        parses_to(pem@, certs),
        certs matches Err(e) ==> exists|
            items: Vec<Result<CertificateDer<'static>, std::io::Error>>,
            k: int,
        |
            {
                &&& #[trigger] reading_gave(pem, items)
                &&& 0 <= k < items@.len()
                &&& (#[trigger] items@[k]) matches Err(error)
                &&& e == TlsError::Pem(error)
                &&& forall|j: int| 0 <= j < k ==> (#[trigger] items@[j]) is Ok
            },
{
    let items = read_pem(pem);
    assert(reading_gave(pem, items));
    let certs = collect_certs(items);
    proof {
        if certs is Ok {
            let found = certs->Ok_0@;
            assert forall|i: int| 0 <= i < found.len() implies pem_certificates(pem@)[i] == Some(
                certificate_bytes(#[trigger] found[i]),
            ) by {
                assert(items@[i] == Ok::<CertificateDer<'static>, std::io::Error>(found[i]));
            }
            assert(pem_certificates(pem@) =~= all_read(chain_bytes(found)));
        } else {
            let k = choose|k: int| 0 <= k < items@.len() && (#[trigger] items@[k]) is Err;
            assert(pem_certificates(pem@)[k] is None);
        }
    }
    certs
}

/// The paths of the search, in order.
pub proof fn four_paths_are_searched()
    ensures
        SYSTEM_CA_PATHS@.len() == 4,
        SYSTEM_CA_PATHS@[0]@ == "/etc/ssl/certs/ca-certificates.crt"@,
        SYSTEM_CA_PATHS@[1]@ == "/etc/pki/tls/certs/ca-bundle.crt"@,
        SYSTEM_CA_PATHS@[2]@ == "/etc/ssl/ca-bundle.pem"@,
        SYSTEM_CA_PATHS@[3]@ == "/etc/ssl/cert.pem"@,
{
}

/// A text that was read ends the search, unless it is empty; whatever else came
/// of reading a path, the next one is tried, as long as there is one.
pub proof fn search_goes_on_until_text_is_read(index: int, contents: Option<Seq<char>>)
    requires
        0 <= index < 4,
    ensures
        contents matches Some(text) && text.len() > 0 ==> after_read(index, contents)
            == SearchState::Done(contents->0),
        (contents is None || contents->0.len() == 0) && index < 3 ==> after_read(index, contents)
            == SearchState::Try(index + 1),
        (contents is None || contents->0.len() == 0) && index == 3 ==> after_read(index, contents)
            == SearchState::Done(Seq::empty()),
{
}

/// A search reads the paths one by one, and stops at the first that holds a
/// bundle, with what that holds. It has read all four where none does.
pub proof fn search_reads_paths_in_order(contents: Seq<Option<Seq<char>>>, k: nat, reads: nat)
    requires
        contents.len() == 4,
        k <= 4,
        forall|j: int|
            0 <= j < k ==> match #[trigger] contents[j] {
                Some(text) => text.len() == 0,
                None => true,
            },
    ensures
        reads <= k && reads < 4 ==> search_after(SearchState::Try(0), contents, reads)
            == SearchState::Try(reads as int),
        k < 4 && reads > k && (contents[k as int] matches Some(text) && text.len() > 0)
            ==> search_after(SearchState::Try(0), contents, reads) == SearchState::Done(
            contents[k as int]->0,
        ),
        k == 4 && reads >= 4 ==> search_after(SearchState::Try(0), contents, reads)
            == SearchState::Done(Seq::empty()),
{
    lemma_search_after(0, contents, k, reads);
}

proof fn lemma_search_after(index: int, contents: Seq<Option<Seq<char>>>, k: nat, reads: nat)
    requires
        contents.len() == 4,
        0 <= index <= k <= 4,
        index < 4,
        forall|j: int| 0 <= j < k ==> match #[trigger] contents[j] {
            Some(text) => text.len() == 0,
            None => true,
        },
    ensures
        index + reads <= k && index + reads < 4 ==> search_after(
            SearchState::Try(index),
            contents,
            reads,
        ) == SearchState::Try(index + reads),
        k < 4 && index + reads > k && (contents[k as int] matches Some(text) && text.len() > 0)
            ==> search_after(SearchState::Try(index), contents, reads) == SearchState::Done(
            contents[k as int]->0,
        ),
        k == 4 && index + reads >= 4 ==> search_after(SearchState::Try(index), contents, reads)
            == SearchState::Done(Seq::empty()),
    decreases reads,
{
    if reads > 0 {
        let next = after_read(index, contents[index]);
        assert(search_after(SearchState::Try(index), contents, reads) == search_after(
            next,
            contents,
            (reads - 1) as nat,
        ));
        search_goes_on_until_text_is_read(index, contents[index]);
        if index < k && index < 3 {
            lemma_search_after(index + 1, contents, k, (reads - 1) as nat);
        }
    }
}

/// A search is seen as it is: by the index of the path that it asks for, or by
/// the bundle that it ended with; and what was read is seen as its text.
pub proof fn search_is_seen_as_it_is(index: usize, text: String)
    ensures
        BundleSearch::Try(index)@ == SearchState::Try(index as int),
        BundleSearch::Done(text)@ == SearchState::Done(text@),
        text_read(Some(text)) == Some(text@),
        text_read(None) is None,
{
}

/// Nothing stands between the system's certificates and the sandbox CA but the
/// line break that the first lacks, and nothing else is in the bundle.
pub proof fn bundle_holds_nothing_else(system: Seq<char>, ca_pem: Seq<char>)
    ensures
        ({
            let bundle = combined(system, ca_pem);
            let gap = bundle.len() - system.len() - ca_pem.len();
            &&& bundle.take(system.len() as int) == system
            &&& bundle.skip(bundle.len() - ca_pem.len()) == ca_pem
            &&& gap == 0 || gap == 1
            &&& gap == 1 <==> system.len() > 0 && system.last() != '\n'
            &&& gap == 1 ==> bundle[system.len() as int] == '\n'
        }),
{
    let bundle = combined(system, ca_pem);
    assert(bundle.take(system.len() as int) =~= system);
    assert(bundle.skip(bundle.len() - ca_pem.len()) =~= ca_pem);
}

/// The names of the two files, by which the sandbox finds them.
pub proof fn file_names()
    ensures
        CA_CERT_FILE@ == "openshell-ca.pem"@,
        CA_BUNDLE_FILE@ == "ca-bundle.pem"@,
{
}

/// Parsing gives each certificate of the text, in order and nothing left out; it
/// fails just where one cannot be read.
pub proof fn parsing_gives_every_certificate(
    pem: Seq<u8>,
    certs: Result<Vec<CertificateDer<'static>>, TlsError>,
)
    requires
        parses_to(pem, certs),
    ensures
        match certs {
            Ok(certs) => {
                &&& certs@.len() == pem_certificates(pem).len()
                &&& forall|i: int|
                    0 <= i < certs@.len() ==> #[trigger] pem_certificates(pem)[i] == Some(
                        certificate_bytes(certs@[i]),
                    )
            },
            Err(e) => e is Pem && exists|i: int|
                0 <= i < pem_certificates(pem).len() && #[trigger] pem_certificates(pem)[i] is None,
        },
{
    if let Ok(certs) = certs {
        let ders = chain_bytes(certs@);
        assert(ders.len() == certs@.len() && all_read(ders).len() == ders.len());
        assert forall|i: int| 0 <= i < certs@.len() implies #[trigger] pem_certificates(pem)[i]
            == Some(certificate_bytes(certs@[i])) by {
            assert(all_read(ders)[i] == Some(ders[i]));
        }
    }
}

} // verus!
