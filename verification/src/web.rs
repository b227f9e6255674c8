//! The verified web-facing helpers: the in-memory template store, page
//! rendering, and the plan for answering a static-file request.
//!
//! The templates themselves are compiled into the unverified shell and
//! handed in as plain strings; this module owns the lookup, the error
//! mapping, and the decisions a handler acts on.

use vstd::prelude::*;

use crate::error::AppError;

verus! {

/// A named page template held in memory.
pub struct Template {
    pub name: String,
    pub content: String,
}

impl View for Template {
    type V = (Seq<char>, Seq<char>);

    open spec fn view(&self) -> (Seq<char>, Seq<char>) {
        (self.name@, self.content@)
    }
}

impl DeepView for Template {
    type V = (Seq<char>, Seq<char>);

    open spec fn deep_view(&self) -> (Seq<char>, Seq<char>) {
        self.view()
    }
}

/// The content of the first template named `name`, when there is one.
pub open spec fn lookup(v: Seq<(Seq<char>, Seq<char>)>, name: Seq<char>) -> Option<Seq<char>>
    decreases v.len(),
{
    if v.len() == 0 {
        None
    } else if v.first().0 == name {
        Some(v.first().1)
    } else {
        lookup(v.drop_first(), name)
    }
}

/// What the template renderer produces from a template and one
/// variable binding: the page, or the renderer's error text.
pub uninterp spec fn render_result(tmpl: Seq<char>, var: Seq<char>, value: Seq<char>) -> Result<
    Seq<char>,
    Seq<char>,
>;

/// Relies on `handlebars::Registry::render_template` on a freshly made
/// default registry: the output is a function of the template text and
/// the data alone.
#[verifier::external_body]
fn render_with_var(tmpl: &str, var: &str, value: &str) -> (r: Result<String, String>)
    ensures
        r matches Ok(s) ==> (render_result(tmpl@, var@, value@) matches Ok(v) && s@ == v),
        r matches Err(e) ==> (render_result(tmpl@, var@, value@) matches Err(v) && e@ == v),
{
    let mut data = std::collections::BTreeMap::new();
    data.insert(var, value);
    handlebars::Handlebars::new().render_template(tmpl, &data).map_err(|e| e.to_string())
}

/// The content type that the extension of `path` maps to,
/// `application/octet-stream` when none is known.
pub uninterp spec fn mime_of(path: Seq<char>) -> Seq<char>;

/// Relies on `mime_guess::from_path` and `first_or_octet_stream`: the
/// guess is a pure lookup from the path's extension.
#[verifier::external_body]
fn guess_mime(path: &str) -> (r: String)
    ensures
        r@ == mime_of(path@),
{
    mime_guess::from_path(path).first_or_octet_stream().as_ref().to_owned()
}

/// The set of page templates compiled into the server.
pub struct TemplateStore {
    entries: Vec<Template>,
}

impl View for TemplateStore {
    type V = Seq<(Seq<char>, Seq<char>)>;

    closed spec fn view(&self) -> Seq<(Seq<char>, Seq<char>)> {
        self.entries.deep_view()
    }
}

impl TemplateStore {
    /// An empty store.
    pub fn new() -> (r: TemplateStore)
        ensures
            r@ == Seq::<(Seq<char>, Seq<char>)>::empty(),
    {
        let r = TemplateStore { entries: Vec::new() };
        proof {
            assert(r@ =~= Seq::<(Seq<char>, Seq<char>)>::empty());
        }
        r
    }

    /// Append one template.
    pub fn add(&mut self, name: String, content: String)
        ensures
            final(self)@ == old(self)@.push((name@, content@)),
    {
        let ghost prev = self@;
        self.entries.push(Template { name, content });
        proof {
            assert(self@ =~= prev.push((name@, content@)));
        }
    }

    /// Load a template: its content when the store holds `path`, and
    /// the not-found error otherwise.
    pub fn get_template(&self, path: &str) -> (r: Result<String, AppError>)
        ensures
            lookup(self@, path@) matches Some(c) ==> (r matches Ok(s) && s@ == c),
            lookup(self@, path@) is None ==> (r matches Err(e) && e matches AppError::Error(m)
                && m@ == "File not found"@),
    {
        let key = String::from_str(path);
        proof {
            assert(self@.subrange(0, self@.len() as int) =~= self@);
        }
        let mut i: usize = 0;
        while i < self.entries.len()
            invariant
                i <= self.entries.len(),
                key@ == path@,
                lookup(self@.subrange(i as int, self@.len() as int), path@) == lookup(
                    self@,
                    path@,
                ),
                forall|j: int| 0 <= j < i ==> (#[trigger] self@[j]).0 != path@,
            decreases self.entries.len() - i,
        {
            let ghost tail = self@.subrange(i as int, self@.len() as int);
            proof {
                assert(tail.first() == self@[i as int]);
                assert(tail.drop_first() =~= self@.subrange(i as int + 1, self@.len() as int));
            }
            let e = &self.entries[i];
            if e.name == key {
                return Ok(e.content.clone());
            }
            i = i + 1;
        }
        proof {
            assert(self@.subrange(self@.len() as int, self@.len() as int).len() == 0);
        }
        Err(AppError::Error(String::from_str("File not found")))
    }

    /// The landing page: the `index.html` template rendered with the
    /// configured key bound to `API_KEY`.
    pub fn index_page(&self, api_key: &str) -> (r: Result<String, AppError>)
        ensures
            lookup(self@, "index.html"@) is None ==> (r matches Err(e) && e matches
                AppError::Error(m) && m@ == "File not found"@),
            lookup(self@, "index.html"@) matches Some(t) ==> match render_result(
                t,
                "API_KEY"@,
                api_key@,
            ) {
                Ok(page) => r matches Ok(s) && s@ == page,
                Err(why) => r matches Err(e) && e matches AppError::Error(m) && m@ == why,
            },
    {
        let tmpl = match self.get_template("index.html") {
            Ok(t) => t,
            Err(e) => {
                return Err(e);
            },
        };
        match render_with_var(tmpl.as_str(), "API_KEY", api_key) {
            Ok(page) => Ok(page),
            Err(why) => Err(AppError::Error(why)),
        }
    }
}

/// How the server answers a request for a static file.
#[derive(Clone, Debug, PartialEq, Eq)]
pub enum StaticReply {
    /// Serve it, labelled with this content type and cached for a year.
    File { content_type: String, cache_control: String },
    /// There is no such file.
    NotFound,
}

/// Decide how a request for the static file at `path` is answered,
/// given whether the file exists: found files are served under the
/// content type their extension maps to, with a year-long cache header;
/// anything else is a plain not-found reply.
pub fn plan_static_reply(path: &str, found: bool) -> (r: StaticReply)
    ensures
        found ==> (r matches StaticReply::File { content_type, cache_control } && content_type@
            == mime_of(path@) && cache_control@ == "max-age=31536000"@),
        !found ==> r is NotFound,
{
    if found {
        StaticReply::File {
            content_type: guess_mime(path),
            cache_control: String::from_str("max-age=31536000"),
        }
    } else {
        StaticReply::NotFound
    }
}

} // verus!
