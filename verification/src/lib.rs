pub mod text;
pub mod ofd_error;
pub mod der_tlv;
pub mod utc_time;
pub mod seal;
pub mod errors;
pub mod numtext;
pub mod sign_id_parser;
pub mod sign_id_provider;
pub mod paths;
pub mod sign_dir;
pub mod signs_dir;
pub mod algorithm;
pub mod stamppos;
pub mod sign_containers;
pub mod timestamp_hook;
pub mod verification_result;
pub mod signed_ofd;
pub mod verify_containers;
pub mod ofd_signature_builder;
pub mod assoc;

pub mod internal_helpers;
pub mod merge;
pub mod page_deleter;
pub mod xml;
pub mod verify_signature;
pub mod ofd_template_filler;
pub mod multi;
pub mod crl;
pub mod timestamp;
pub mod sm2_sig;
pub mod archive;
pub mod cert;
pub mod png;
pub mod http;
pub mod reader_core;
