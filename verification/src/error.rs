use vstd::prelude::*;

verus! {

/// Why the server cannot start or go on.
#[derive(Clone, Debug)]
pub enum Error {
    Config(String),
    Unspecified(String),
    Listening { listener: String, address: String, err: String },
    Tls(String),
    IO(String),
}

impl Error {
    /// What the error says.
    pub open spec fn text(&self) -> Seq<char> {
        match self {
            Error::Config(reason) => reason@,
            Error::Unspecified(reason) => "error loading config: "@ + reason@,
            Error::Listening { listener, address, err } => "error listening "@ + listener@ + " on "@
                + address@ + ": "@ + err@,
            Error::Tls(reason) => reason@,
            Error::IO(reason) => reason@,
        }
    }

    /// What the error says.
    pub fn message(&self) -> (message: String)
        ensures
            message@ == self.text(),
            self matches Error::Config(reason) ==> message@ == reason@,
            self matches Error::Unspecified(reason) ==> message@ == "error loading config: "@
                + reason@,
            self matches Error::Listening { listener, address, err } ==> message@
                == "error listening "@ + listener@ + " on "@ + address@ + ": "@ + err@,
            self matches Error::Tls(reason) ==> message@ == reason@,
            self matches Error::IO(reason) ==> message@ == reason@,
    {
        match self {
            Error::Config(reason) => reason.clone(),
            Error::Unspecified(reason) => {
                "error loading config: ".to_owned().concat(reason.as_str())
            },
            Error::Listening { listener, address, err } => {
                "error listening ".to_owned().concat(listener.as_str()).concat(" on ").concat(
                    address.as_str(),
                ).concat(": ").concat(err.as_str())
            },
            Error::Tls(reason) => reason.clone(),
            Error::IO(reason) => reason.clone(),
        }
    }
}

/// What an error says ends with its own reason, and says no more where the reason is all there is to
/// say.
pub proof fn law_error_ends_with_its_reason(err: Error, reason: String)
    requires
        err == Error::Config(reason) || err == Error::Unspecified(reason) || err == Error::Tls(reason)
            || err == Error::IO(reason) || (err matches Error::Listening { err: inner, .. } && inner
            == reason),
    ensures
        reason@.is_suffix_of(err.text()),
        err is Config || err is Tls || err is IO ==> err.text() == reason@,
{
    let text = err.text();
    assert(text.subrange(text.len() - reason@.len(), text.len() as int) =~= reason@);
}

} // verus!
