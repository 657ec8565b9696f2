//! Actions: what a viewer does when a link is followed or a page is opened (go to a page,
//! open a URI, run a script, launch a file, step through pages).
use vstd::prelude::*;
use crate::PdfResult;
use crate::objects::boolean::PdfBooleanObject;
use crate::objects::dictionary::{PdfDictionaryObject, keys_of, plain_dict};
use crate::objects::number::NumberType;
use crate::objects::pdf_array::PdfArrayObject;
use crate::objects::pdf_object::{PdfObject, is_bool, is_name, is_number, is_string};
use crate::util::Rect;

verus! {

/// An action: its type name and its dictionary.
pub trait Action {
    fn action_type(&self) -> &'static str;

    fn to_dict(&self) -> PdfResult<PdfDictionaryObject>;
}

/// Opens a URI.
pub struct UriAction {
    pub uri: String,
    pub is_map: bool,
}

impl UriAction {
    pub fn new(uri: String) -> (a: Self)
        ensures
            a.uri@ == uri@,
            !a.is_map,
    {
        Self { uri, is_map: false }
    }

    pub fn with_is_map(self, is_map: bool) -> (a: Self)
        ensures
            a.uri@ == self.uri@,
            a.is_map == is_map,
    {
        let mut s = self;
        s.is_map = is_map;
        s
    }
}

impl Action for UriAction {
    fn action_type(&self) -> (s: &'static str)
        ensures
            s@ == "URI"@,
    {
        "URI"
    }

    /// `/S /URI`, `/URI (uri)`, and `/IsMap true` for a map.
    fn to_dict(&self) -> (r: PdfResult<PdfDictionaryObject>)
        ensures
            r matches Ok(d) && {
                &&& plain_dict(d)
                &&& keys_of(d.values@) =~= if self.is_map {
                    seq!["S"@, "URI"@, "IsMap"@]
                } else {
                    seq!["S"@, "URI"@]
                }
                &&& is_name(d.values@[0].1, "URI"@)
                &&& is_string(d.values@[1].1, self.uri@)
                &&& self.is_map ==> is_bool(d.values@[2].1, true)
            },
    {
        proof {
            reveal_strlit("S");
            reveal_strlit("URI");
            reveal_strlit("IsMap");
            assert("S"@.len() == 1 && "URI"@.len() == 3 && "IsMap"@.len() == 5);
        }
        let mut dict = PdfDictionaryObject::new();
        dict.put_new("S", PdfObject::name_obj(self.action_type()));
        dict.put_new("URI", PdfObject::string_obj(self.uri.as_str()));
        if self.is_map {
            dict.put_new("IsMap", PdfObject::Boolean(PdfBooleanObject::new(true)));
        }
        Ok(dict)
    }
}

/// Goes to a destination in the document.
pub struct GoToAction {
    pub destination: FitDestination,
}

impl GoToAction {
    pub fn new(destination: FitDestination) -> (a: Self)
        ensures
            a.destination == destination,
    {
        Self { destination }
    }
}

impl Action for GoToAction {
    fn action_type(&self) -> (s: &'static str)
        ensures
            s@ == "GoTo"@,
    {
        "GoTo"
    }

    /// `/S /GoTo` and `/D` with the destination array.
    fn to_dict(&self) -> (r: PdfResult<PdfDictionaryObject>)
        ensures
            r matches Ok(d) && {
                &&& plain_dict(d)
                &&& keys_of(d.values@) =~= seq!["S"@, "D"@]
                &&& is_name(d.values@[0].1, "GoTo"@)
                &&& d.values@[1].1 matches PdfObject::Array(a) && is_destination_array(self.destination, a)
            },
    {
        proof {
            reveal_strlit("S");
            reveal_strlit("D");
            assert("S"@[0] != "D"@[0]);
        }
        let mut dict = PdfDictionaryObject::new();
        dict.put_new("S", PdfObject::name_obj(self.action_type()));
        dict.put_new("D", PdfObject::Array(self.destination.to_pdf_array()));
        Ok(dict)
    }
}

/// Runs a script.
pub struct JavaScriptAction {
    pub script: String,
}

impl JavaScriptAction {
    pub fn new(script: String) -> (a: Self)
        ensures
            a.script@ == script@,
    {
        Self { script }
    }
}

impl Action for JavaScriptAction {
    fn action_type(&self) -> (s: &'static str)
        ensures
            s@ == "JavaScript"@,
    {
        "JavaScript"
    }

    /// `/S /JavaScript` and `/JS (script)`.
    fn to_dict(&self) -> (r: PdfResult<PdfDictionaryObject>)
        ensures
            r matches Ok(d) && {
                &&& plain_dict(d)
                &&& keys_of(d.values@) =~= seq!["S"@, "JS"@]
                &&& is_name(d.values@[0].1, "JavaScript"@)
                &&& is_string(d.values@[1].1, self.script@)
            },
    {
        proof {
            reveal_strlit("S");
            reveal_strlit("JS");
            assert("S"@.len() == 1 && "JS"@.len() == 2);
        }
        let mut dict = PdfDictionaryObject::new();
        dict.put_new("S", PdfObject::name_obj(self.action_type()));
        dict.put_new("JS", PdfObject::string_obj(self.script.as_str()));
        Ok(dict)
    }
}

/// Launches a file.
pub struct LaunchAction {
    pub file: String,
    pub new_window: Option<bool>,
}

impl LaunchAction {
    pub fn new(file: String) -> (a: Self)
        ensures
            a.file@ == file@,
            a.new_window is None,
    {
        Self { file, new_window: None }
    }

    pub fn with_new_window(self, new_window: bool) -> (a: Self)
        ensures
            a.file@ == self.file@,
            a.new_window == Some(new_window),
    {
        let mut s = self;
        s.new_window = Some(new_window);
        s
    }
}

impl Action for LaunchAction {
    fn action_type(&self) -> (s: &'static str)
        ensures
            s@ == "Launch"@,
    {
        "Launch"
    }

    /// `/S /Launch`, `/F` with the file specification `<< /Type /Filespec /F (file) >>`, and
    /// `/NewWindow` when it is set.
    fn to_dict(&self) -> (r: PdfResult<PdfDictionaryObject>)
        ensures
            r matches Ok(d) && {
                &&& plain_dict(d)
                &&& keys_of(d.values@) =~= if self.new_window is Some {
                    seq!["S"@, "F"@, "NewWindow"@]
                } else {
                    seq!["S"@, "F"@]
                }
                &&& is_name(d.values@[0].1, "Launch"@)
                &&& d.values@[1].1 matches PdfObject::Dictionary(f) && {
                    &&& plain_dict(f)
                    &&& keys_of(f.values@) =~= seq!["Type"@, "F"@]
                    &&& is_name(f.values@[0].1, "Filespec"@)
                    &&& is_string(f.values@[1].1, self.file@)
                }
                &&& self.new_window matches Some(w) ==> is_bool(d.values@[2].1, w)
            },
    {
        proof {
            reveal_strlit("S");
            reveal_strlit("F");
            reveal_strlit("Type");
            reveal_strlit("NewWindow");
            assert("S"@[0] != "F"@[0] && "Type"@.len() == 4 && "F"@.len() == 1);
            assert("S"@.len() == 1 && "NewWindow"@.len() == 9);
        }
        let mut dict = PdfDictionaryObject::new();
        dict.put_new("S", PdfObject::name_obj(self.action_type()));
        let mut file_dict = PdfDictionaryObject::new();
        file_dict.put_new("Type", PdfObject::name_obj("Filespec"));
        file_dict.put_new("F", PdfObject::string_obj(self.file.as_str()));
        dict.put_new("F", PdfObject::Dictionary(file_dict));
        if let Some(new_win) = self.new_window {
            dict.put_new("NewWindow", PdfObject::Boolean(PdfBooleanObject::new(new_win)));
        }
        Ok(dict)
    }
}

/// Steps to another page.
pub struct NamedAction {
    pub name: NamedActionType,
}

#[derive(Debug, Clone, Copy, PartialEq, Eq, Structural)]
pub enum NamedActionType {
    NextPage,
    PrevPage,
    FirstPage,
    LastPage,
}

pub open spec fn named_action_name(t: NamedActionType) -> Seq<char> {
    match t {
        NamedActionType::NextPage => "NextPage"@,
        NamedActionType::PrevPage => "PrevPage"@,
        NamedActionType::FirstPage => "FirstPage"@,
        NamedActionType::LastPage => "LastPage"@,
    }
}

impl NamedActionType {
    pub fn as_str(&self) -> (s: &'static str)
        ensures
            s@ == named_action_name(*self),
    {
        match self {
            NamedActionType::NextPage => "NextPage",
            NamedActionType::PrevPage => "PrevPage",
            NamedActionType::FirstPage => "FirstPage",
            NamedActionType::LastPage => "LastPage",
        }
    }
}

impl NamedAction {
    pub fn new(name: NamedActionType) -> (a: Self)
        ensures
            a.name == name,
    {
        Self { name }
    }
}

impl Action for NamedAction {
    fn action_type(&self) -> (s: &'static str)
        ensures
            s@ == "Named"@,
    {
        "Named"
    }

    /// `/S /Named` and `/N` with the name of the step.
    fn to_dict(&self) -> (r: PdfResult<PdfDictionaryObject>)
        ensures
            r matches Ok(d) && {
                &&& plain_dict(d)
                &&& keys_of(d.values@) =~= seq!["S"@, "N"@]
                &&& is_name(d.values@[0].1, "Named"@)
                &&& is_name(d.values@[1].1, named_action_name(self.name))
            },
    {
        proof {
            reveal_strlit("S");
            reveal_strlit("N");
            assert("S"@[0] != "N"@[0]);
        }
        let mut dict = PdfDictionaryObject::new();
        dict.put_new("S", PdfObject::name_obj(self.action_type()));
        dict.put_new("N", PdfObject::name_obj(self.name.as_str()));
        Ok(dict)
    }
}

/// A destination: a page and how it is shown. Coordinates and the zoom factor are real
/// numbers held as ten-thousandths; `None` leaves the current value unchanged.
#[derive(Debug, Clone, Copy, PartialEq, Eq, Structural)]
pub enum FitDestination {
    XYZ { page: usize, left: Option<i64>, top: Option<i64>, zoom: Option<i64> },
    Fit { page: usize },
    FitH { page: usize, top: Option<i64> },
    FitV { page: usize, left: Option<i64> },
    FitR { page: usize, rect: Rect },
}

/// `o` is the real number `v`, or null for `None`.
pub open spec fn is_real_or_null(o: PdfObject, v: Option<i64>) -> bool {
    match v {
        Some(x) => is_number(o, NumberType::Real(x)),
        None => o is Null,
    }
}

/// The elements of the destination array: the page number, the name of the fit, then its
/// parameters.
pub open spec fn is_destination_array(d: FitDestination, a: PdfArrayObject) -> bool {
    let s = a.values@;
    &&& a.object_number is None
    &&& a.generation_number is None
    &&& match d {
        FitDestination::XYZ { page, left, top, zoom } => {
            &&& s.len() == 5
            &&& is_number(s[0], NumberType::Integer(page as i64))
            &&& is_name(s[1], "XYZ"@)
            &&& is_real_or_null(s[2], left)
            &&& is_real_or_null(s[3], top)
            &&& is_real_or_null(s[4], zoom)
        },
        FitDestination::Fit { page } => {
            &&& s.len() == 2
            &&& is_number(s[0], NumberType::Integer(page as i64))
            &&& is_name(s[1], "Fit"@)
        },
        FitDestination::FitH { page, top } => {
            &&& s.len() == 3
            &&& is_number(s[0], NumberType::Integer(page as i64))
            &&& is_name(s[1], "FitH"@)
            &&& is_real_or_null(s[2], top)
        },
        FitDestination::FitV { page, left } => {
            &&& s.len() == 3
            &&& is_number(s[0], NumberType::Integer(page as i64))
            &&& is_name(s[1], "FitV"@)
            &&& is_real_or_null(s[2], left)
        },
        FitDestination::FitR { page, rect } => {
            &&& s.len() == 6
            &&& is_number(s[0], NumberType::Integer(page as i64))
            &&& is_name(s[1], "FitR"@)
            &&& is_number(s[2], NumberType::Real(rect.x1))
            &&& is_number(s[3], NumberType::Real(rect.y1))
            &&& is_number(s[4], NumberType::Real(rect.x2))
            &&& is_number(s[5], NumberType::Real(rect.y2))
        },
    }
}

/// A real number object, or null for `None`.
fn real_or_null(v: Option<i64>) -> (o: PdfObject)
    ensures
        is_real_or_null(o, v),
{
    match v {
        Some(x) => PdfObject::num_obj(NumberType::Real(x)),
        None => PdfObject::null_obj(),
    }
}

impl FitDestination {
    pub fn xyz(page: usize, left: Option<i64>, top: Option<i64>, zoom: Option<i64>) -> (d: Self)
        ensures
            d == (FitDestination::XYZ { page, left, top, zoom }),
    {
        Self::XYZ { page, left, top, zoom }
    }

    pub fn fit(page: usize) -> (d: Self)
        ensures
            d == (FitDestination::Fit { page }),
    {
        Self::Fit { page }
    }

    /// The destination array, such as `[ 1 /XYZ 0 0 1 ]`.
    pub fn to_pdf_array(&self) -> (a: PdfArrayObject)
        ensures
            is_destination_array(*self, a),
    {
        let mut arr = PdfArrayObject::new();
        match self {
            FitDestination::XYZ { page, left, top, zoom } => {
                arr.push(PdfObject::num_obj(NumberType::Integer(*page as i64)));
                arr.push(PdfObject::name_obj("XYZ"));
                arr.push(real_or_null(*left));
                arr.push(real_or_null(*top));
                arr.push(real_or_null(*zoom));
            },
            FitDestination::Fit { page } => {
                arr.push(PdfObject::num_obj(NumberType::Integer(*page as i64)));
                arr.push(PdfObject::name_obj("Fit"));
            },
            FitDestination::FitH { page, top } => {
                arr.push(PdfObject::num_obj(NumberType::Integer(*page as i64)));
                arr.push(PdfObject::name_obj("FitH"));
                arr.push(real_or_null(*top));
            },
            FitDestination::FitV { page, left } => {
                arr.push(PdfObject::num_obj(NumberType::Integer(*page as i64)));
                arr.push(PdfObject::name_obj("FitV"));
                arr.push(real_or_null(*left));
            },
            FitDestination::FitR { page, rect } => {
                arr.push(PdfObject::num_obj(NumberType::Integer(*page as i64)));
                arr.push(PdfObject::name_obj("FitR"));
                arr.push(PdfObject::num_obj(NumberType::Real(rect.x1)));
                arr.push(PdfObject::num_obj(NumberType::Real(rect.y1)));
                arr.push(PdfObject::num_obj(NumberType::Real(rect.x2)));
                arr.push(PdfObject::num_obj(NumberType::Real(rect.y2)));
            },
        }
        arr
    }
}

/// The value a viewer reads from an operand of a destination: the real number, or nothing for
/// null or any other object.
pub open spec fn real_operand(o: PdfObject) -> Option<i64> {
    match o {
        PdfObject::Number(n) => match n.value {
            NumberType::Real(x) => Some(x),
            NumberType::Integer(_) => None,
        },
        _ => None,
    }
}

/// The destination a viewer reads from an array `[page /Kind operands...]`, as the PDF
/// format lays it out: `/XYZ left top zoom`, `/Fit`, `/FitH top`, `/FitV left` and
/// `/FitR left bottom right top`.
pub open spec fn read_destination(a: PdfArrayObject) -> Option<FitDestination> {
    let s = a.values@;
    if s.len() < 2 {
        None
    } else {
        match (s[0], s[1]) {
            (PdfObject::Number(pn), PdfObject::Name(kind)) => match pn.value {
                NumberType::Integer(p) => {
                    let page = p as usize;
                    if kind.value@ == "XYZ"@ && s.len() == 5 {
                        Some(
                            FitDestination::XYZ {
                                page,
                                left: real_operand(s[2]),
                                top: real_operand(s[3]),
                                zoom: real_operand(s[4]),
                            },
                        )
                    } else if kind.value@ == "Fit"@ && s.len() == 2 {
                        Some(FitDestination::Fit { page })
                    } else if kind.value@ == "FitH"@ && s.len() == 3 {
                        Some(FitDestination::FitH { page, top: real_operand(s[2]) })
                    } else if kind.value@ == "FitV"@ && s.len() == 3 {
                        Some(FitDestination::FitV { page, left: real_operand(s[2]) })
                    } else if kind.value@ == "FitR"@ && s.len() == 6 && real_operand(s[2]) is Some && real_operand(
                        s[3],
                    ) is Some && real_operand(s[4]) is Some && real_operand(s[5]) is Some {
                        Some(
                            FitDestination::FitR {
                                page,
                                rect: Rect {
                                    x1: real_operand(s[2])->Some_0,
                                    y1: real_operand(s[3])->Some_0,
                                    x2: real_operand(s[4])->Some_0,
                                    y2: real_operand(s[5])->Some_0,
                                },
                            },
                        )
                    } else {
                        None
                    }
                },
                NumberType::Real(_) => None,
            },
            _ => None,
        }
    }
}

/// A destination array reads back as the destination it was made for: the page first, the
/// kind second, then each operand at the position the PDF format gives it (for `/XYZ`, the
/// left edge, then the top edge, then the zoom). Pages whose number fits a 64-bit integer.
pub proof fn law_destination_array_reads_back(d: FitDestination, a: PdfArrayObject)
    requires
        is_destination_array(d, a),
        destination_page(d) <= i64::MAX,
    ensures
        read_destination(a) == Some(d),
{
    reveal_strlit("XYZ");
    reveal_strlit("Fit");
    reveal_strlit("FitH");
    reveal_strlit("FitV");
    reveal_strlit("FitR");
    assert("XYZ"@.len() == 3 && "Fit"@.len() == 3 && "FitH"@.len() == 4 && "FitV"@.len() == 4 && "FitR"@.len() == 4);
    assert("XYZ"@[0] != "Fit"@[0]);
    assert("FitH"@[3] != "FitV"@[3] && "FitH"@[3] != "FitR"@[3] && "FitV"@[3] != "FitR"@[3]);
}

/// The page of a destination.
pub open spec fn destination_page(d: FitDestination) -> usize {
    match d {
        FitDestination::XYZ { page, .. } => page,
        FitDestination::Fit { page } => page,
        FitDestination::FitH { page, .. } => page,
        FitDestination::FitV { page, .. } => page,
        FitDestination::FitR { page, .. } => page,
    }
}

} // verus!
