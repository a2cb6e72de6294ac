//! Declarations of the outside types that the library's values carry.
use vstd::prelude::*;

use quick_xml::Error as XmlReadError;
use serde_json::Error as JsonError;

verus! {

#[verifier::external_type_specification]
#[verifier::external_body]
pub struct ExIoError(std::io::Error);

#[verifier::external_type_specification]
#[verifier::external_body]
pub struct ExXmlError(XmlReadError);

#[verifier::external_type_specification]
#[verifier::external_body]
pub struct ExJsonError(JsonError);

} // verus!
