//! The request/response data model: methods, content types, the error
//! taxonomy, and the typed payloads that handlers exchange.
use vstd::prelude::*;

verus! {

/// HTTP method of a request or a registered route.
#[derive(Clone, Copy, PartialEq, Eq, Structural, Debug)]
pub enum Method {
    Get,
    Post,
    Put,
    Delete,
}

/// Declared encoding of a payload: structural JSON, UTF-8 text, or raw bytes.
#[derive(Clone, Copy, PartialEq, Eq, Structural, Debug)]
pub enum ContentType {
    Plain,
    Json,
    Bytes,
}

/// Every failure a request can end in.
#[derive(Clone, Copy, PartialEq, Eq, Structural, Debug)]
pub enum ApiError {
    RouteNotFound,
    MethodNotAllowed,
    MissingSegment,
    DecodeError,
    ResourceUnavailable,
    StorageError,
}

/// A stored expense record. The amount is kept as its decimal number
/// token, exactly as it stood in the JSON that created it, so no
/// precision is lost between decode and re-encode.
pub struct Expense {
    pub id: i32,
    pub name: Vec<u8>,
    pub amount: Vec<u8>,
}

/// Spec-level image of an [`Expense`].
#[verifier::ext_equal]
pub struct ExpenseV {
    pub id: int,
    pub name: Seq<u8>,
    pub amount: Seq<u8>,
}

impl View for Expense {
    type V = ExpenseV;

    open spec fn view(&self) -> ExpenseV {
        ExpenseV { id: self.id as int, name: self.name@, amount: self.amount@ }
    }
}

/// The id-less input projection of an expense, used only for inbound writes.
pub struct NewExpense {
    pub name: Vec<u8>,
    pub amount: Vec<u8>,
}

/// Spec-level image of a [`NewExpense`].
#[verifier::ext_equal]
pub struct NewExpenseV {
    pub name: Seq<u8>,
    pub amount: Seq<u8>,
}

impl View for NewExpense {
    type V = NewExpenseV;

    open spec fn view(&self) -> NewExpenseV {
        NewExpenseV { name: self.name@, amount: self.amount@ }
    }
}

/// The structured body of the data routes: a required integer and an
/// optional text field.
pub struct MyData {
    pub foo: usize,
    pub bar: Option<Vec<u8>>,
}

/// Spec-level image of a [`MyData`].
#[verifier::ext_equal]
pub struct MyDataV {
    pub foo: int,
    pub bar: Option<Seq<u8>>,
}

impl View for MyData {
    type V = MyDataV;

    open spec fn view(&self) -> MyDataV {
        MyDataV {
            foo: self.foo as int,
            bar: match self.bar {
                Some(ref b) => Some(b@),
                None => None,
            },
        }
    }
}

/// The fixed JSON payload of the greeting route.
pub struct HelloResponse {
    pub message: Vec<u8>,
}

/// An inbound request as the dispatcher sees it. No registered route
/// negotiates on headers, and the dispatch contract shows it: the model
/// the response is pinned to never reads them.
pub struct Request {
    pub method: Method,
    pub path: Vec<u8>,
    pub headers: Vec<(Vec<u8>, Vec<u8>)>,
    pub body: Vec<u8>,
}

/// Spec-level image of a [`Request`].
#[verifier::ext_equal]
pub struct RequestV {
    pub method: Method,
    pub path: Seq<u8>,
    pub headers: Seq<(Seq<u8>, Seq<u8>)>,
    pub body: Seq<u8>,
}

impl View for Request {
    type V = RequestV;

    open spec fn view(&self) -> RequestV {
        RequestV {
            method: self.method,
            path: self.path@,
            headers: self.headers@.map(|i: int, p: (Vec<u8>, Vec<u8>)| (p.0@, p.1@)),
            body: self.body@,
        }
    }
}

/// An outbound response before the middleware chain touches it.
pub struct Response {
    pub status: u16,
    pub ctype: ContentType,
    pub body: Vec<u8>,
}

/// Spec-level image of a [`Response`].
#[verifier::ext_equal]
pub struct ResponseV {
    pub status: int,
    pub ctype: ContentType,
    pub body: Seq<u8>,
}

impl View for Response {
    type V = ResponseV;

    open spec fn view(&self) -> ResponseV {
        ResponseV { status: self.status as int, ctype: self.ctype, body: self.body@ }
    }
}

} // verus!
