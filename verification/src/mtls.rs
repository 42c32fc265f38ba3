//! The client certificate with which the CLI reaches the cluster's gateway.
use vstd::prelude::*;

use crate::codec;
use crate::codec::decode_base64;
use crate::lines;
use crate::text;
use crate::text::{chars_of, holds, is_blank, split_lines, string_of, trimmed};

verus! {

/// The secret that holds the client certificate.
pub const CLI_SECRET_NAME: &'static str = "navigator-cli-client";

/// A client certificate with its key and the certificate of the authority.
#[derive(Debug)]
pub struct CliMtlsBundle {
    pub ca: Vec<u8>,
    pub cert: Vec<u8>,
    pub key: Vec<u8>,
}

/// What a bundle holds.
#[verifier::ext_equal]
pub struct BundleView {
    pub ca: Seq<u8>,
    pub cert: Seq<u8>,
    pub key: Seq<u8>,
}

impl View for CliMtlsBundle {
    type V = BundleView;

    open spec fn view(&self) -> BundleView {
        BundleView { ca: self.ca@, cert: self.cert@, key: self.key@ }
    }
}

/// One of the values of a bundle, and the file that holds it.
#[derive(Clone, Copy, Debug, PartialEq, Eq, Structural)]
pub enum BundleFile {
    Ca,
    Cert,
    Key,
}

impl BundleFile {
    /// The file's name.
    pub open spec fn file_name(self) -> Seq<char> {
        match self {
            BundleFile::Ca => "ca.crt"@,
            BundleFile::Cert => "tls.crt"@,
            BundleFile::Key => "tls.key"@,
        }
    }

    /// The file's name.
    pub fn name(self) -> (r: &'static str)
        ensures
            r@ == self.file_name(),
            self == BundleFile::Ca ==> r@ == "ca.crt"@,
            self == BundleFile::Cert ==> r@ == "tls.crt"@,
            self == BundleFile::Key ==> r@ == "tls.key"@,
    {
        match self {
            BundleFile::Ca => "ca.crt",
            BundleFile::Cert => "tls.crt",
            BundleFile::Key => "tls.key",
        }
    }

    /// What of a bundle the file holds.
    pub open spec fn part(self, bundle: BundleView) -> Seq<u8> {
        match self {
            BundleFile::Ca => bundle.ca,
            BundleFile::Cert => bundle.cert,
            BundleFile::Key => bundle.key,
        }
    }

    /// What of a bundle the file holds.
    pub fn contents(self, bundle: &CliMtlsBundle) -> (r: &Vec<u8>)
        ensures
            r@ == self.part(bundle@),
            self == BundleFile::Ca ==> r@ == bundle.ca@,
            self == BundleFile::Cert ==> r@ == bundle.cert@,
            self == BundleFile::Key ==> r@ == bundle.key@,
    {
        match self {
            BundleFile::Ca => &bundle.ca,
            BundleFile::Cert => &bundle.cert,
            BundleFile::Key => &bundle.key,
        }
    }
}

/// The command that prints the secret's three values, one on a line.
pub fn secret_command() -> (r: Vec<String>)
    ensures
        text::views(r@) == seq![
            "kubectl"@,
            "-n"@,
            "navigator"@,
            "get"@,
            "secret"@,
            "navigator-cli-client"@,
            "-o"@,
            "jsonpath={.data.ca\\.crt}{\"\\n\"}{.data.tls\\.crt}{\"\\n\"}{.data.tls\\.key}"@,
        ],
{
    let r: Vec<String> = vec![
        "kubectl".to_string(),
        "-n".to_string(),
        "navigator".to_string(),
        "get".to_string(),
        "secret".to_string(),
        CLI_SECRET_NAME.to_string(),
        "-o".to_string(),
        "jsonpath={.data.ca\\.crt}{\"\\n\"}{.data.tls\\.crt}{\"\\n\"}{.data.tls\\.key}".to_string(),
    ];
    r
}

/// Whether what the command printed says that there is no secret yet.
pub open spec fn says_no_secret(output: Seq<char>) -> bool {
    ||| text::blank(output)
    ||| text::contains_text(output, "NotFound"@)
    ||| text::contains_text(output, "not found"@)
    ||| text::contains_text(output, "Error from server"@)
}

/// A line without the white space round it, or nothing where there is no such
/// line.
pub open spec fn field(output: Seq<char>, i: int) -> Seq<char> {
    if i < text::lines(output).len() {
        text::trim(text::lines(output)[i])
    } else {
        Seq::<char>::empty()
    }
}

/// What the printed secret comes to: there is none or it is not complete, or it
/// holds a bundle, or one of its values is no base64. Of several such values it is
/// the first.
pub enum SecretReply {
    Absent,
    Complete(BundleView),
    Malformed(BundleFile),
}

/// A value of the secret that is no base64, with what the decoder says of it.
#[derive(Debug)]
pub struct MalformedValue {
    pub value: BundleFile,
    pub error: base64::DecodeError,
}

/// What a printed secret comes to.
pub open spec fn secret_reply(output: Seq<char>) -> SecretReply {
    let (ca, cert, key) = (field(output, 0), field(output, 1), field(output, 2));
    if says_no_secret(output) || ca.len() == 0 || cert.len() == 0 || key.len() == 0 {
        SecretReply::Absent
    } else {
        match (codec::base64_bytes(ca), codec::base64_bytes(cert), codec::base64_bytes(key)) {
            (None, _, _) => SecretReply::Malformed(BundleFile::Ca),
            (Some(_), None, _) => SecretReply::Malformed(BundleFile::Cert),
            (Some(_), Some(_), None) => SecretReply::Malformed(BundleFile::Key),
            (Some(ca), Some(cert), Some(key)) => SecretReply::Complete(
                BundleView { ca, cert, key },
            ),
        }
    }
}

/// A line without the white space round it, or nothing.
fn field_of(parts: &Vec<Vec<char>>, i: usize) -> (r: String)
    ensures
        r@ == if i < parts@.len() {
            text::trim(parts@[i as int]@)
        } else {
            Seq::<char>::empty()
        },
{
    if i < parts.len() {
        string_of(trimmed(&parts[i]))
    } else {
        String::new()
    }
}

/// Reads the bundle from the printed secret. `Ok(None)` where the secret is not
/// there yet or not complete.
pub fn parse_cli_mtls_bundle(output: &str) -> (r: Result<
    Option<CliMtlsBundle>,
    MalformedValue,
>)
    ensures
        match r {
            Ok(None) => secret_reply(output@) is Absent,
            Ok(Some(bundle)) => secret_reply(output@) == SecretReply::Complete(bundle@),
            Err(e) => secret_reply(output@) == SecretReply::Malformed(e.value),
        },
        r matches Ok(Some(bundle)) ==> {
            &&& text::lines(output@).len() >= 3
            &&& codec::base64_text(bundle.ca@) == text::trim(text::lines(output@)[0])
            &&& codec::base64_text(bundle.cert@) == text::trim(text::lines(output@)[1])
            &&& codec::base64_text(bundle.key@) == text::trim(text::lines(output@)[2])
            &&& bundle.ca@.len() > 0 && bundle.cert@.len() > 0 && bundle.key@.len() > 0
        },
{
    proof {
        if secret_reply(output@) is Complete {
            law_complete_reply_holds_the_lines(output@);
        }
    }
    let chars = chars_of(output);
    if is_blank(&chars) || holds(&chars, &chars_of("NotFound")) || holds(
        &chars,
        &chars_of("not found"),
    ) || holds(&chars, &chars_of("Error from server")) {
        return Ok(None);
    }
    let parts = split_lines(&chars);
    proof {
        assert forall|i: int| 0 <= i < parts@.len() implies #[trigger] text::lines(output@)[i]
            == parts@[i]@ by {
            assert(text::char_views(parts@)[i] == parts@[i]@);
        }
        assert(text::lines(output@).len() == parts@.len());
    }
    let ca_b64 = field_of(&parts, 0);
    let cert_b64 = field_of(&parts, 1);
    let key_b64 = field_of(&parts, 2);
    assert(ca_b64@ == field(output@, 0));
    assert(cert_b64@ == field(output@, 1));
    assert(key_b64@ == field(output@, 2));
    if ca_b64.as_str().is_empty() || cert_b64.as_str().is_empty() || key_b64.as_str().is_empty() {
        return Ok(None);
    }
    let ca = match decode_base64(ca_b64.as_str()) {
        Ok(bytes) => bytes,
        Err(error) => {
            return Err(MalformedValue { value: BundleFile::Ca, error });
        },
    };
    let cert = match decode_base64(cert_b64.as_str()) {
        Ok(bytes) => bytes,
        Err(error) => {
            return Err(MalformedValue { value: BundleFile::Cert, error });
        },
    };
    let key = match decode_base64(key_b64.as_str()) {
        Ok(bytes) => bytes,
        Err(error) => {
            return Err(MalformedValue { value: BundleFile::Key, error });
        },
    };
    Ok(Some(CliMtlsBundle { ca, cert, key }))
}

/// The secret as the command prints it.
pub open spec fn printed_secret(bundle: BundleView) -> Seq<char> {
    codec::base64_text(bundle.ca) + "\n"@ + codec::base64_text(bundle.cert) + "\n"@
        + codec::base64_text(bundle.key)
}

proof fn lemma_trim_base64(bytes: Seq<u8>)
    ensures
        text::trim(codec::base64_text(bytes)) == codec::base64_text(bytes),
{
    let t = codec::base64_text(bytes);
    codec::lemma_base64_chars(bytes);
    if t.len() > 0 {
        assert(codec::base64_char(t[0]));
        assert(codec::base64_char(t[t.len() - 1]));
    }
    assert(t.skip(0) == t);
}

/// A secret is read back as the bundle that was stored in it, once none of its
/// values is empty and no part of it spells `NotFound`.
pub proof fn law_secret_gives_the_bundle_back(bundle: BundleView)
    requires
        bundle.ca.len() > 0,
        bundle.cert.len() > 0,
        bundle.key.len() > 0,
        !text::contains_text(printed_secret(bundle), "NotFound"@),
    ensures
        secret_reply(printed_secret(bundle)) == SecretReply::Complete(bundle),
{
    reveal_strlit("\n");
    let output = printed_secret(bundle);
    let a = codec::base64_text(bundle.ca);
    let b = codec::base64_text(bundle.cert);
    let c = codec::base64_text(bundle.key);
    codec::lemma_base64_chars(bundle.ca);
    codec::lemma_base64_chars(bundle.cert);
    codec::lemma_base64_chars(bundle.key);
    assert forall|i: int| 0 <= i < output.len() implies (codec::base64_char(#[trigger] output[i])
        || output[i] == '\n') by {
        let n = a.len() + 1;
        let m = n + b.len() + 1;
        if i < a.len() {
            assert(output[i] == a[i]);
        } else if i >= n && i < n + b.len() {
            assert(output[i] == b[i - n]);
        } else if i >= m {
            assert(output[i] == c[i - m]);
        }
    }
    assert(output[0] == a[0]);
    assert(!text::blank(output)) by {
        assert(codec::base64_char(a[0]));
        assert(!text::white_space(output[0]));
    }
    assert(!text::contains_text(output, "not found"@)) by {
        reveal_strlit("not found");
        lemma_no_blank_inside(output, "not found"@, 3);
    }
    assert(!text::contains_text(output, "Error from server"@)) by {
        reveal_strlit("Error from server");
        lemma_no_blank_inside(output, "Error from server"@, 5);
    }
    let pieces = seq![a, b, c];
    assert(text::lines(output) == pieces) by {
        assert forall|i: int| 0 <= i < pieces.len() implies lines::single_line(
            #[trigger] pieces[i],
        ) && !lines::ends_return(pieces[i]) by {
            let p = pieces[i];
            assert forall|j: int| 0 <= j < p.len() implies #[trigger] p[j] != '\n' by {
                assert(codec::base64_char(p[j]));
            }
            assert(codec::base64_char(p[p.len() - 1]));
        }
        reveal_with_fuel(text::join, 4);
        assert(pieces.skip(1) == seq![b, c]);
        assert(pieces.skip(1).skip(1) == seq![c]);
        assert(text::join(pieces, "\n"@) + Seq::<char>::empty() == output);
        lines::lemma_lines_of_join(pieces, false);
    }
    lemma_trim_base64(bundle.ca);
    lemma_trim_base64(bundle.cert);
    lemma_trim_base64(bundle.key);
    codec::law_base64_gives_the_bytes_back(bundle.ca);
    codec::law_base64_gives_the_bytes_back(bundle.cert);
    codec::law_base64_gives_the_bytes_back(bundle.key);
}

proof fn lemma_no_blank_inside(s: Seq<char>, p: Seq<char>, k: int)
    requires
        0 <= k < p.len(),
        p[k] == ' ',
        forall|i: int| 0 <= i < s.len() ==> #[trigger] s[i] != ' ',
    ensures
        !text::contains_text(s, p),
{
    assert forall|i: int| !#[trigger] text::occurs_at(s, p, i) by {
        if text::occurs_at(s, p, i) {
            assert(s.subrange(i, i + p.len())[k] == s[i + k]);
        }
    }
}

/// Each file holds its own part of a bundle, under a name of its own.
pub proof fn law_files_of_a_bundle(one: BundleFile, other: BundleFile, bundle: BundleView)
    ensures
        BundleFile::Ca.part(bundle) == bundle.ca,
        BundleFile::Cert.part(bundle) == bundle.cert,
        BundleFile::Key.part(bundle) == bundle.key,
        one != other ==> one.file_name() != other.file_name(),
        one == BundleFile::Ca ==> one.file_name() == "ca.crt"@,
        one == BundleFile::Cert ==> one.file_name() == "tls.crt"@,
        one == BundleFile::Key ==> one.file_name() == "tls.key"@,
{
    reveal_strlit("ca.crt");
    reveal_strlit("tls.crt");
    reveal_strlit("tls.key");
    assert("ca.crt"@.len() == 6);
    assert("tls.crt"@.len() == 7 && "tls.crt"@[4] == 'c');
    assert("tls.key"@.len() == 7 && "tls.key"@[4] == 'k');
}

/// A secret is absent where nothing was printed but white space, where what was printed
/// says that it was not found or that the server failed, or where one of the first
/// three lines is missing or blank.
pub proof fn law_absent_secret(output: Seq<char>, front: Seq<char>, back: Seq<char>)
    ensures
        text::blank(output) ==> secret_reply(output) is Absent,
        output == front + "NotFound"@ + back ==> secret_reply(output) is Absent,
        output == front + "not found"@ + back ==> secret_reply(output) is Absent,
        output == front + "Error from server"@ + back ==> secret_reply(output) is Absent,
        text::lines(output).len() < 3 ==> secret_reply(output) is Absent,
        text::lines(output).len() >= 3 && (text::trim(text::lines(output)[0]).len() == 0
            || text::trim(text::lines(output)[1]).len() == 0 || text::trim(
            text::lines(output)[2],
        ).len() == 0) ==> secret_reply(output) is Absent,
{
    text::law_contained_text(output, "NotFound"@);
    text::law_contained_text(output, "not found"@);
    text::law_contained_text(output, "Error from server"@);
    assert(field(output, 2).len() == 0 || text::lines(output).len() >= 3);
}

/// A bundle that was read is what the first three lines are the base64 text of, in this
/// order: the authority's certificate, the client's, and the client's key. None is
/// empty.
pub proof fn law_complete_reply_holds_the_lines(output: Seq<char>)
    requires
        secret_reply(output) is Complete,
    ensures
        text::lines(output).len() >= 3,
        ({
            let bundle = secret_reply(output)->Complete_0;
            &&& codec::base64_text(bundle.ca) == text::trim(text::lines(output)[0])
            &&& codec::base64_text(bundle.cert) == text::trim(text::lines(output)[1])
            &&& codec::base64_text(bundle.key) == text::trim(text::lines(output)[2])
            &&& bundle.ca.len() > 0 && bundle.cert.len() > 0 && bundle.key.len() > 0
        }),
        !text::blank(output),
        !text::contains_text(output, "NotFound"@),
        !text::contains_text(output, "not found"@),
        !text::contains_text(output, "Error from server"@),
{
    let bundle = secret_reply(output)->Complete_0;
    assert(field(output, 2).len() > 0);
    codec::law_base64_texts(field(output, 0), bundle.ca);
    codec::law_base64_texts(field(output, 1), bundle.cert);
    codec::law_base64_texts(field(output, 2), bundle.key);
}

/// What was printed is read as a bundle where its first three lines are the base64
/// texts of the bundle's values, whatever white space stands round them and whatever
/// follows, and nothing says that there is no secret.
pub proof fn law_lines_of_a_secret_are_read(output: Seq<char>, bundle: BundleView)
    requires
        text::lines(output).len() >= 3,
        text::trim(text::lines(output)[0]) == codec::base64_text(bundle.ca),
        text::trim(text::lines(output)[1]) == codec::base64_text(bundle.cert),
        text::trim(text::lines(output)[2]) == codec::base64_text(bundle.key),
        bundle.ca.len() > 0 && bundle.cert.len() > 0 && bundle.key.len() > 0,
        !text::blank(output),
        !text::contains_text(output, "NotFound"@),
        !text::contains_text(output, "not found"@),
        !text::contains_text(output, "Error from server"@),
    ensures
        secret_reply(output) == SecretReply::Complete(bundle),
{
    codec::lemma_base64_chars(bundle.ca);
    codec::lemma_base64_chars(bundle.cert);
    codec::lemma_base64_chars(bundle.key);
    codec::law_base64_gives_the_bytes_back(bundle.ca);
    codec::law_base64_gives_the_bytes_back(bundle.cert);
    codec::law_base64_gives_the_bytes_back(bundle.key);
}

/// Where all three values are there and one is no base64, the first such is named.
pub proof fn law_first_malformed_value_is_named(output: Seq<char>)
    requires
        text::lines(output).len() >= 3,
        text::trim(text::lines(output)[0]).len() > 0,
        text::trim(text::lines(output)[1]).len() > 0,
        text::trim(text::lines(output)[2]).len() > 0,
        !text::blank(output),
        !text::contains_text(output, "NotFound"@),
        !text::contains_text(output, "not found"@),
        !text::contains_text(output, "Error from server"@),
    ensures
        ({
            let ca = codec::base64_bytes(text::trim(text::lines(output)[0]));
            let cert = codec::base64_bytes(text::trim(text::lines(output)[1]));
            let key = codec::base64_bytes(text::trim(text::lines(output)[2]));
            &&& secret_reply(output) == SecretReply::Malformed(BundleFile::Ca) <==> ca is None
            &&& secret_reply(output) == SecretReply::Malformed(BundleFile::Cert) <==> ca is Some
                && cert is None
            &&& secret_reply(output) == SecretReply::Malformed(BundleFile::Key) <==> ca is Some
                && cert is Some && key is None
            &&& secret_reply(output) is Complete <==> ca is Some && cert is Some && key is Some
        }),
{
}

} // verus!
