//! The state behind the windows.
use vstd::prelude::*;

pub mod browse;
pub mod chat;
pub mod laws;
pub mod review;
pub mod sync;

verus! {

/// A page that a synchronisation found in its first version.
#[derive(Debug)]
pub struct NewPageInfo {
    pub id: String,
    pub title: String,
    pub url: String,
    pub text: String,
}

/// The model of a page that a synchronisation found in its first version.
pub struct NewPageView {
    pub id: Seq<char>,
    pub title: Seq<char>,
    pub url: Seq<char>,
    pub text: Seq<char>,
}

impl DeepView for NewPageInfo {
    type V = NewPageView;

    open spec fn deep_view(&self) -> NewPageView {
        NewPageView { id: self.id@, title: self.title@, url: self.url@, text: self.text@ }
    }
}

impl Clone for NewPageInfo {
    fn clone(&self) -> (r: Self)
        ensures
            r.deep_view() == self.deep_view(),
    {
        NewPageInfo {
            id: self.id.clone(),
            title: self.title.clone(),
            url: self.url.clone(),
            text: self.text.clone(),
        }
    }
}

} // verus!
