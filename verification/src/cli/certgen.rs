//! Certificates for use on one host.

use rcgen::RcgenError;
use vstd::prelude::*;
use vstd::string::StringExecFns;

verus! {

/// Why the outside generator made no certificate.
#[verifier::external_type_specification]
#[verifier::external_body]
pub struct ExRcgenError(RcgenError);

/// Whether a text is all ASCII.
pub open spec fn is_ascii(text: Seq<char>) -> bool {
    forall|i: int| 0 <= i < text.len() ==> (#[trigger] text[i] as u32) < 128
}

/// Whether a text is one block in the notation of PEM files: between a line that begins what `tag`
/// names and one that ends it.
pub open spec fn is_pem_block(text: Seq<char>, tag: Seq<char>) -> bool {
    let first = "-----BEGIN "@ + tag + "-----\r\n"@;
    let last = "-----END "@ + tag + "-----\r\n"@;
    &&& first.len() + last.len() <= text.len()
    &&& text.take(first.len() as int) == first
    &&& text.skip(text.len() - last.len()) == last
}

/// `rcgen::generate_simple_self_signed` makes a new key and a certificate for one name, signed with
/// that key; `Certificate::serialize_pem` and `Certificate::serialize_private_key_pem` write the
/// two as PEM blocks. They do not return where the name is not ASCII. The key is random, so nothing
/// is said of what stands inside the blocks, nor of when no key can be had.
#[verifier::external_body]
fn self_signed_pair(host_san: String) -> (r: Result<(String, String), RcgenError>)
    requires
        is_ascii(host_san@),
    ensures
        match r {
            Ok((public, private)) => is_pem_block(public@, "CERTIFICATE"@) && is_pem_block(
                private@,
                "PRIVATE KEY"@,
            ),
            Err(_) => true,
        },
{
    let certificate = rcgen::generate_simple_self_signed(vec![host_san])?;
    let public = certificate.serialize_pem()?;
    Ok((public, certificate.serialize_private_key_pem()))
}

/// Why no certificate was made.
#[derive(Debug, Clone, Copy, PartialEq, Eq, Structural)]
pub enum CertgenError {
    /// The certificate or its key could not be generated.
    GenerationFailed,
}

/// The two files of a certificate.
#[derive(Debug)]
pub struct CertificateFiles {
    /// The name of the file that anyone may read.
    pub public_name: String,
    pub public_pem: String,
    /// The name of the file that holds the key.
    pub private_name: String,
    pub private_pem: String,
}

/// The name of the file that anyone may read.
pub open spec fn public_file(name: Seq<char>) -> Seq<char> {
    name + ".pub.pem"@
}

/// The name of the file that holds the key.
pub open spec fn private_file(name: Seq<char>) -> Seq<char> {
    name + ".priv.pem"@
}

/// The certificate and its key never go to the same file, whatever the names.
pub proof fn law_files_differ(a: Seq<char>, b: Seq<char>)
    ensures
        public_file(a) != private_file(b),
{
    reveal_strlit(".pub.pem");
    reveal_strlit(".priv.pem");
    let x = public_file(a);
    let y = private_file(b);
    if x == y {
        assert(x[x.len() - 5] == ".pub.pem"@[3]);
        assert(y[y.len() - 5] == ".priv.pem"@[4]);
    }
}

/// The files for a generated pair.
pub fn certificate_files(name: &str, public_pem: String, private_pem: String) -> (r: CertificateFiles)
    ensures
        r.public_name@ == public_file(name@),
        r.private_name@ == private_file(name@),
        r.public_pem == public_pem,
        r.private_pem == private_pem,
{
    let mut public_name = name.to_owned();
    public_name.append(".pub.pem");
    let mut private_name = name.to_owned();
    private_name.append(".priv.pem");
    CertificateFiles { public_name, public_pem, private_name, private_pem }
}

/// Makes a certificate for a host, and the files for it; it fails only where the generator does.
pub fn certgen(name: &str, host_san: String) -> (r: Result<CertificateFiles, CertgenError>)
    requires
        is_ascii(host_san@),
    ensures
        exists|pair: Result<(String, String), RcgenError>| #[trigger]
            generates(host_san, pair) && assembles(name@, pair, r),
        r matches Ok(files) ==> is_pem_block(files.public_pem@, "CERTIFICATE"@) && is_pem_block(
            files.private_pem@,
            "PRIVATE KEY"@,
        ),
{
    let ghost host = host_san;
    let pair = self_signed_pair(host_san);
    assert(generates(host, pair));
    assemble_certificate(name, pair)
}

/// What a generated pair, or the failure to generate one, comes to: files for the pair where there
/// is one, and otherwise an error.
pub open spec fn assembles<E>(
    name: Seq<char>,
    pair: Result<(String, String), E>,
    r: Result<CertificateFiles, CertgenError>,
) -> bool {
    match (pair, r) {
        (Ok((public_pem, private_pem)), Ok(files)) => {
            &&& files.public_name@ == public_file(name)
            &&& files.private_name@ == private_file(name)
            &&& files.public_pem == public_pem
            &&& files.private_pem == private_pem
        },
        (Err(_), Err(e)) => e == CertgenError::GenerationFailed,
        _ => false,
    }
}

/// Files are made exactly where a pair was generated. The certificate goes to the file that ends in
/// `.pub.pem` and the key to the one that ends in `.priv.pem`, each under the name that was given.
pub proof fn law_each_part_in_its_file<E>(
    name: Seq<char>,
    pair: Result<(String, String), E>,
    r: Result<CertificateFiles, CertgenError>,
)
    requires
        assembles(name, pair, r),
    ensures
        r is Ok <==> pair is Ok,
        r matches Ok(files) ==> {
            &&& pair matches Ok((public, private))
            &&& files.public_pem == public
            &&& files.private_pem == private
            &&& files.public_name@ == name + ".pub.pem"@
            &&& files.private_name@ == name + ".priv.pem"@
        },
        r matches Err(e) ==> e == CertgenError::GenerationFailed,
{
}

/// The files for what the generator gave.
pub fn assemble_certificate<E>(name: &str, pair: Result<(String, String), E>) -> (r: Result<
    CertificateFiles,
    CertgenError,
>)
    ensures
        assembles(name@, pair, r),
{
    match pair {
        Ok((public_pem, private_pem)) => Ok(certificate_files(name, public_pem, private_pem)),
        Err(_) => Err(CertgenError::GenerationFailed),
    }
}

/// Whether the generator, asked for a certificate for this host, can give this.
pub closed spec fn generates(
    host_san: String,
    pair: Result<(String, String), RcgenError>,
) -> bool {
    call_ensures(self_signed_pair, (host_san,), pair)
}

} // verus!
