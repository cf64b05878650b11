//! The services that turn a participant's audio into text.

pub mod aws;

use crate::text::same_text;
use vstd::prelude::*;
use vstd::string::StringExecFns;

verus! {

/// A service that can be asked for.
#[derive(Clone, Copy, Debug, PartialEq, Eq, Structural)]
pub enum TranscriberKind {
    Aws,
}

/// There is no service of this name.
#[derive(Debug)]
pub struct InvalidTranscriber {
    pub name: String,
}

impl InvalidTranscriber {
    /// Says what is wrong.
    pub fn text(&self) -> (text: String)
        ensures
            text@ == "invalid transcriber name: "@ + self.name@,
    {
        "invalid transcriber name: ".to_owned().concat(self.name.as_str())
    }
}

impl TranscriberKind {
    /// The service of a name.
    pub open spec fn of_name(name: Seq<char>) -> Option<TranscriberKind> {
        if name == "aws"@ {
            Some(TranscriberKind::Aws)
        } else {
            None
        }
    }

    /// Finds the service of a name.
    pub fn from_name(name: &String) -> (kind: Result<TranscriberKind, InvalidTranscriber>)
        ensures
            match kind {
                Ok(kind) => TranscriberKind::of_name(name@) == Some(kind),
                Err(error) => TranscriberKind::of_name(name@) is None && error.name@ == name@,
            },
    {
        if same_text(name, "aws") {
            Ok(TranscriberKind::Aws)
        } else {
            Err(InvalidTranscriber { name: name.clone() })
        }
    }
}

/// There is one service, and it goes by one name.
pub proof fn law_services_have_one_name(name: Seq<char>)
    ensures
        TranscriberKind::of_name(name) is Some <==> name =~= seq!['a', 'w', 's'],
        TranscriberKind::of_name(name) is Some ==> TranscriberKind::of_name(name).unwrap()
            == TranscriberKind::Aws,
{
    reveal_strlit("aws");
    assert("aws"@ =~= seq!['a', 'w', 's']);
}

/// A service is found by its name, and a name that is not found is handed back as it is.
pub proof fn law_services_are_found(
    name: String,
    kind: Result<TranscriberKind, InvalidTranscriber>,
)
    requires
        call_ensures(TranscriberKind::from_name, (&name,), kind),
    ensures
        kind is Ok <==> name@ =~= seq!['a', 'w', 's'],
        kind matches Err(error) ==> error.name@ == name@,
{
    law_services_have_one_name(name@);
}

/// What is said of a service that is not there ends with the name that was asked for.
pub proof fn law_invalid_names_are_told(error: InvalidTranscriber, text: String)
    requires
        call_ensures(InvalidTranscriber::text, (&error,), text),
    ensures
        text@.len() == 26 + error.name@.len(),
        text@.take(26) == "invalid transcriber name: "@,
        text@.skip(26) == error.name@,
{
    reveal_strlit("invalid transcriber name: ");
    assert(text@.take(26) =~= "invalid transcriber name: "@);
    assert(text@.skip(26) =~= error.name@);
}

} // verus!
