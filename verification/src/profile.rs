//! The business profile collected when an operator is taken on board.

use crate::text::{trim, trimmed};
use vstd::prelude::*;
use vstd::string::*;

verus! {

/// How the business can be reached. A field that is `None` was not
/// provided, which is not the same as an empty string.
#[derive(Debug, Clone, PartialEq, Eq)]
pub struct ContactInfo {
    pub email: String,
    pub phone: Option<String>,
    pub address: Option<String>,
}

/// The mathematical value of a `ContactInfo`.
pub ghost struct ContactView {
    pub email: Seq<char>,
    pub phone: Option<Seq<char>>,
    pub address: Option<Seq<char>>,
}

impl View for ContactInfo {
    type V = ContactView;

    open spec fn view(&self) -> ContactView {
        ContactView {
            email: self.email@,
            phone: self.phone.deep_view(),
            address: self.address.deep_view(),
        }
    }
}

/// Identity and description of the business that the assistant serves.
#[derive(Debug, Clone, PartialEq, Eq)]
pub struct BusinessProfile {
    pub name: String,
    pub industry: String,
    pub description: String,
    pub contact: Option<ContactInfo>,
}

/// The mathematical value of a `BusinessProfile`.
pub ghost struct ProfileView {
    pub name: Seq<char>,
    pub industry: Seq<char>,
    pub description: Seq<char>,
    pub contact: Option<ContactView>,
}

impl View for BusinessProfile {
    type V = ProfileView;

    open spec fn view(&self) -> ProfileView {
        ProfileView {
            name: self.name@,
            industry: self.industry@,
            description: self.description@,
            contact: match self.contact {
                Some(c) => Some(c@),
                None => None,
            },
        }
    }
}

impl BusinessProfile {
    /// Builds the profile from the three lines that the operator typed, in
    /// the order in which they are asked for: brand name, industry,
    /// description. Each is kept without the white space around it. No
    /// contact details are recorded.
    pub fn collect(
        name_line: &str,
        industry_line: &str,
        description_line: &str,
    ) -> (profile: BusinessProfile)
        ensures
            profile@ == (ProfileView {
                name: trimmed(name_line@),
                industry: trimmed(industry_line@),
                description: trimmed(description_line@),
                contact: None,
            }),
    {
        BusinessProfile {
            name: String::from_str(trim(name_line)),
            industry: String::from_str(trim(industry_line)),
            description: String::from_str(trim(description_line)),
            contact: None,
        }
    }

    /// The same profile with contact details attached.
    pub fn with_contact(self, contact: ContactInfo) -> (profile: BusinessProfile)
        ensures
            profile@ == (ProfileView { contact: Some(contact@), ..self@ }),
    {
        BusinessProfile {
            name: self.name,
            industry: self.industry,
            description: self.description,
            contact: Some(contact),
        }
    }
}

} // verus!
