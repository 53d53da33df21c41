//! Configurations as YAML text.

use vstd::prelude::*;
use crate::error::{ErrorKind, Fault, SchemaError};
use crate::node::NodeView;
use crate::types::configuration::{Configuration, ConfigurationView};
use crate::yaml::{error_text, read_document, write_document, yaml_document, yaml_text};

verus! {

/// What reading a text gives, by the document that the text holds: where it
/// holds none the failure is [`ErrorKind::Malformed`] at the root, with a
/// detail that is not stated here; else it is what the document stands for.
pub open spec fn parsed(document: Option<NodeView>, r: Result<ConfigurationView, Fault>) -> bool {
    match document {
        Some(n) => r == Configuration::decode(n),
        None => r matches Err(e) && e.kind == ErrorKind::Malformed && e.path == Seq::<
            crate::error::SegmentView,
        >::empty(),
    }
}

/// The mathematical value of the outcome of reading.
pub open spec fn outcome(r: Result<Configuration, SchemaError>) -> Result<ConfigurationView, Fault> {
    match r {
        Ok(x) => Ok(x.deep_view()),
        Err(e) => Err(e.deep_view()),
    }
}

impl Configuration {
    /// Reads a configuration from YAML text.
    ///
    /// The text must hold one document of plain values. The document is then
    /// read as [`Configuration::from_node`] reads it: strictly, with no key
    /// passed over and nothing coerced.
    pub fn from_yaml_string(yaml: &str) -> (r: Result<Configuration, SchemaError>)
        ensures
            parsed(yaml_document(yaml@), outcome(r)),
            r matches Ok(x) ==> x.deep_view().valid(),
    {
        match read_document(yaml) {
            Ok(Some(n)) => {
                let r = Configuration::from_node(&n);
                match &r {
                    Ok(x) => x.witness_valid(),
                    Err(_) => {},
                }
                r
            },
            Ok(None) => Err(SchemaError::malformed(String::from_str("a tagged value has no place in a configuration"))),
            Err(e) => Err(SchemaError::malformed(error_text(&e))),
        }
    }

    /// Writes a configuration as YAML text: the text of the document that
    /// [`Configuration::to_node`] gives. A field that is absent is left out.
    ///
    /// Writing fails only where the YAML writer does: where the text of a
    /// [`crate::node::Numeral::Real`] is no number.
    pub fn to_yaml_string(&self) -> (r: Result<String, SchemaError>)
        ensures
            r matches Ok(s) ==> yaml_text(Configuration::encode(self.deep_view())) == Some(s@),
            r matches Err(e) ==> yaml_text(Configuration::encode(self.deep_view())) is None
                && e.deep_view().kind == ErrorKind::Malformed && e.deep_view().path == Seq::<
                crate::error::SegmentView,
            >::empty(),
    {
        let n = self.to_node();
        match write_document(&n) {
            Ok(s) => Ok(s),
            Err(e) => Err(SchemaError::malformed(error_text(&e))),
        }
    }
}

} // verus!
