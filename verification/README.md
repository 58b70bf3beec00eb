# easyofd_signature

Signing and verifying OFD documents (ZIP packages of XML descriptions, SM2 signatures over
SM3 digests), written in Verus: every function of `src/` carries a contract that Verus
proves.

## Layout

- `src/` — the verified library.
  - Package and text handling: `archive` (the ZIP entries of a package), `xml` (the
    signature descriptions and `OFD.xml`), `text`, `numtext`, `paths`, `internal_helpers`
    (hexadecimal, Base64, XML escaping, SM3).
  - Signing: `ofd_signature_builder` (single signer), `multi` (several signers),
    `seal` (the seal file), `timestamp`, `sm2_sig` (SM2 through the `sm2` crate),
    `sign_dir`, `signs_dir`, `sign_id_parser`, `sign_id_provider`.
  - Verifying: `verify_signature`, `verify_containers`, `verification_result`, `cert`
    (X.509 fields and chains), `crl` (CRL and OCSP, SHA-1), `http` (the OCSP exchange's
    HTTP framing).
  - Documents: `ofd_template_filler`, `merge` (merge plan and shared images),
    `page_deleter`, `reader_core` (text and Markdown views, signature summary), `png`.
- `tests/` — tests run against the compiled library.
- `app/` — the command-line tool and the parts that touch files, sockets, the clock and
  floating-point page geometry.

The contracts are stated over views (`Seq`, `Map`, spec functions); results of the
outside crates that take pages to state (XML tokens, ZIP archives, X.509 fields, SM2
signatures) are named by uninterpreted spec functions tied to the calls that produce them.
