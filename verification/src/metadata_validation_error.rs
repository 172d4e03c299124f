use vstd::prelude::*;

use crate::decimal::{decimal, decimal_string};
use crate::error_message::error_message;
use crate::metadata_error::MetadataError;

verus! {

/// A non-empty collection of validation issues found in one pass.
#[derive(Debug, PartialEq, Eq)]
pub struct MetadataValidationError {
    issues: Vec<MetadataError>,
}

impl MetadataValidationError {
    #[verifier::type_invariant]
    spec fn inv(self) -> bool {
        self.issues@.len() > 0
    }

    /// The issues, in the order they were found.
    pub closed spec fn spec_issues(self) -> Seq<MetadataError> {
        self.issues@
    }

    /// Creates an error holding one issue.
    pub fn from_issue(issue: MetadataError) -> (r: Self)
        ensures
            r.spec_issues() == seq![issue],
    {
        let mut issues: Vec<MetadataError> = Vec::new();
        issues.push(issue);
        proof {
            assert(issues@ =~= seq![issue]);
        }
        MetadataValidationError { issues }
    }

    /// Creates an error holding `issues`, or `None` when there is none.
    pub fn from_issues(issues: Vec<MetadataError>) -> (r: Option<Self>)
        ensures
            issues@.len() == 0 <==> r is None,
            r matches Some(e) ==> e.spec_issues() == issues@,
    {
        if issues.len() == 0 {
            None
        } else {
            Some(MetadataValidationError { issues })
        }
    }

    /// Returns the issues in the order they were found.
    pub fn issues(&self) -> (r: &[MetadataError])
        ensures
            r@ == self.spec_issues(),
    {
        self.issues.as_slice()
    }

    /// Returns the number of issues.
    pub fn len(&self) -> (r: usize)
        ensures
            r == self.spec_issues().len(),
            r > 0,
    {
        proof {
            use_type_invariant(self);
        }
        self.issues.len()
    }

    /// Reports whether there is no issue; never true for a constructed error.
    pub fn is_empty(&self) -> (r: bool)
        ensures
            r == (self.spec_issues().len() == 0),
            !r,
    {
        proof {
            use_type_invariant(self);
        }
        self.issues.len() == 0
    }

    /// Returns the issues in the order they were found.
    pub fn into_issues(self) -> (r: Vec<MetadataError>)
        ensures
            r@ == self.spec_issues(),
    {
        self.issues
    }
}

impl Clone for MetadataValidationError {
    /// Copies the issues.
    fn clone(&self) -> (r: Self)
        ensures
            r.spec_issues() == self.spec_issues(),
    {
        proof {
            use_type_invariant(self);
        }
        let issues = self.issues.clone();
        proof {
            assert forall|i: int| 0 <= i < issues@.len() implies issues@[i] == self.issues@[i] by {
                assert(cloned::<MetadataError>(self.issues[i], issues[i]));
            }
            assert(issues@ =~= self.issues@);
        }
        MetadataValidationError { issues }
    }
}

/// The kind of a JSON value.
#[derive(Debug, Clone, Copy, PartialEq, Eq, Hash, Structural)]
pub enum MetadataValueKind {
    /// JSON null.
    Null,
    /// JSON boolean.
    Bool,
    /// JSON number.
    Number,
    /// JSON string.
    String,
    /// JSON array.
    Array,
    /// JSON object.
    Object,
}

impl MetadataValueKind {
    /// The lower-case name of the kind.
    pub open spec fn spec_name(self) -> Seq<char> {
        match self {
            MetadataValueKind::Null => "null"@,
            MetadataValueKind::Bool => "bool"@,
            MetadataValueKind::Number => "number"@,
            MetadataValueKind::String => "string"@,
            MetadataValueKind::Array => "array"@,
            MetadataValueKind::Object => "object"@,
        }
    }

    /// Returns the lower-case name of the kind.
    pub fn as_str(&self) -> (r: &'static str)
        ensures
            r@ == self.spec_name(),
    {
        match self {
            MetadataValueKind::Null => "null",
            MetadataValueKind::Bool => "bool",
            MetadataValueKind::Number => "number",
            MetadataValueKind::String => "string",
            MetadataValueKind::Array => "array",
            MetadataValueKind::Object => "object",
        }
    }
}

/// The numbered descriptions of the first `n` issues, each introduced by
/// `"; "`, its one-based position and `": "`.
pub open spec fn numbered_issues(issues: Seq<MetadataError>, n: nat) -> Seq<char>
    decreases n,
{
    if n == 0 {
        Seq::empty()
    } else {
        numbered_issues(issues, (n - 1) as nat) + "; "@ + decimal(n) + ": "@ + error_message(issues[n - 1])
    }
}

/// The description of a collection of issues: their count, then each issue
/// in order.
pub open spec fn validation_message(issues: Seq<MetadataError>) -> Seq<char> {
    decimal(issues.len()) + " metadata validation issue(s)"@ + numbered_issues(issues, issues.len())
}

impl MetadataValidationError {
    /// Returns the human-readable description: the number of issues, then
    /// each issue with its one-based position.
    pub fn message(&self) -> (r: String)
        ensures
            r@ == validation_message(self.spec_issues()),
    {
        proof {
            reveal_strlit(" metadata validation issue(s)");
            reveal_strlit("; ");
            reveal_strlit(": ");
        }
        let n = self.issues.len();
        let mut text = decimal_string(n).concat(" metadata validation issue(s)");
        let ghost header = decimal(n as nat) + " metadata validation issue(s)"@;
        assert(text@ =~= header + numbered_issues(self.issues@, 0));
        let mut i: usize = 0;
        while i < n
            invariant
                n == self.issues@.len(),
                i <= n,
                header == decimal(n as nat) + " metadata validation issue(s)"@,
                text@ == header + numbered_issues(self.issues@, i as nat),
            decreases n - i,
        {
            let position = decimal_string(i + 1);
            let issue = self.issues[i].message();
            text = text.concat("; ").concat(position.as_str()).concat(": ").concat(issue.as_str());
            proof {
                assert(numbered_issues(self.issues@, (i + 1) as nat) == numbered_issues(self.issues@, i as nat)
                    + "; "@ + decimal((i + 1) as nat) + ": "@ + error_message(self.issues@[i as int]));
                assert(text@ =~= header + numbered_issues(self.issues@, (i + 1) as nat));
            }
            i = i + 1;
        }
        text
    }
}

} // verus!
