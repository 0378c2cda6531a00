use vstd::prelude::*;

verus! {

/// A stored trigger response: exactly one variant is active. `React` holds
/// emoji descriptors in the order they are emitted; `SimpleMessage` holds
/// verbatim text; `Embed` holds the canonical serialized rich document;
/// `Templated` holds a copy of the trigger key and the template source.
pub enum Response {
    React(Vec<Vec<u8>>),
    SimpleMessage(Vec<u8>),
    Embed(Vec<u8>),
    Templated(Vec<u8>, Vec<u8>),
}

/// The mathematical model of a `Response`.
pub enum ResponseModel {
    React(Seq<Seq<u8>>),
    SimpleMessage(Seq<u8>),
    Embed(Seq<u8>),
    Templated(Seq<u8>, Seq<u8>),
}

impl View for Response {
    type V = ResponseModel;

    open spec fn view(&self) -> ResponseModel {
        match self {
            Response::React(ts) => ResponseModel::React(ts.deep_view()),
            Response::SimpleMessage(c) => ResponseModel::SimpleMessage(c@),
            Response::Embed(d) => ResponseModel::Embed(d@),
            Response::Templated(b, t) => ResponseModel::Templated(b@, t@),
        }
    }
}

/// The four response kinds, as reported by trigger listings.
#[derive(PartialEq, Eq, Structural, Clone, Copy, Debug)]
pub enum ResponseKind {
    React,
    SimpleMessage,
    Embed,
    Templated,
}

pub open spec fn kind_of(r: ResponseModel) -> ResponseKind {
    match r {
        ResponseModel::React(_) => ResponseKind::React,
        ResponseModel::SimpleMessage(_) => ResponseKind::SimpleMessage,
        ResponseModel::Embed(_) => ResponseKind::Embed,
        ResponseModel::Templated(_, _) => ResponseKind::Templated,
    }
}

impl Response {
    /// The kind tag of this response.
    pub fn kind(&self) -> (k: ResponseKind)
        ensures
            k == kind_of(self@),
    {
        match self {
            Response::React(_) => ResponseKind::React,
            Response::SimpleMessage(_) => ResponseKind::SimpleMessage,
            Response::Embed(_) => ResponseKind::Embed,
            Response::Templated(_, _) => ResponseKind::Templated,
        }
    }
}

} // verus!
