//! The types of the language, and how written types name them.
use vstd::prelude::*;
use crate::ast::{TypeAnnotation, AnnView, ann_view};
use crate::text::{str_is, push_str};

verus! {

/// A type.
#[derive(Debug)]
pub enum Type {
    Purna8,
    Purna16,
    Purna32,
    Purna64,
    Apu8,
    Apu16,
    Apu32,
    Apu64,
    Ansha32,
    Ansha64,
    Dvaidha,
    Varna,
    /// An owned string: moved, not copied.
    Sutra,
    Rikta,
    Struct(String),
    Reference(Box<Type>),
    MutReference(Box<Type>),
    /// A list whose elements have the given type.
    Soochi(Box<Type>),
    /// A list whose element type is not known.
    SoochiAny,
    Unknown,
}

pub enum TypeView {
    Purna8,
    Purna16,
    Purna32,
    Purna64,
    Apu8,
    Apu16,
    Apu32,
    Apu64,
    Ansha32,
    Ansha64,
    Dvaidha,
    Varna,
    Sutra,
    Rikta,
    Struct(Seq<char>),
    Reference(Box<TypeView>),
    MutReference(Box<TypeView>),
    Soochi(Box<TypeView>),
    SoochiAny,
    Unknown,
}

pub open spec fn type_view(t: Type) -> TypeView
    decreases t,
{
    match t {
        Type::Purna8 => TypeView::Purna8,
        Type::Purna16 => TypeView::Purna16,
        Type::Purna32 => TypeView::Purna32,
        Type::Purna64 => TypeView::Purna64,
        Type::Apu8 => TypeView::Apu8,
        Type::Apu16 => TypeView::Apu16,
        Type::Apu32 => TypeView::Apu32,
        Type::Apu64 => TypeView::Apu64,
        Type::Ansha32 => TypeView::Ansha32,
        Type::Ansha64 => TypeView::Ansha64,
        Type::Dvaidha => TypeView::Dvaidha,
        Type::Varna => TypeView::Varna,
        Type::Sutra => TypeView::Sutra,
        Type::Rikta => TypeView::Rikta,
        Type::Struct(n) => TypeView::Struct(n@),
        Type::Reference(b) => TypeView::Reference(Box::new(type_view(*b))),
        Type::MutReference(b) => TypeView::MutReference(Box::new(type_view(*b))),
        Type::Soochi(b) => TypeView::Soochi(Box::new(type_view(*b))),
        Type::SoochiAny => TypeView::SoochiAny,
        Type::Unknown => TypeView::Unknown,
    }
}

impl View for Type {
    type V = TypeView;

    open spec fn view(&self) -> TypeView {
        type_view(*self)
    }
}

/// Whether values of the type are copied rather than moved.
pub open spec fn is_copy_spec(t: TypeView) -> bool {
    match t {
        TypeView::Purna8 | TypeView::Purna16 | TypeView::Purna32 | TypeView::Purna64 | TypeView::Apu8
        | TypeView::Apu16 | TypeView::Apu32 | TypeView::Apu64 | TypeView::Ansha32 | TypeView::Ansha64
        | TypeView::Dvaidha | TypeView::Varna | TypeView::Rikta | TypeView::Reference(_) => true,
        _ => false,
    }
}

/// The type that a simple type name names; any other name is a struct.
pub open spec fn named_type(name: Seq<char>) -> TypeView {
    if name == "पूर्ण८"@ {
        TypeView::Purna8
    } else if name == "पूर्ण१६"@ {
        TypeView::Purna16
    } else if name == "पूर्ण३२"@ {
        TypeView::Purna32
    } else if name == "पूर्ण६४"@ || name == "पूर्ण"@ {
        TypeView::Purna64
    } else if name == "अपू८"@ {
        TypeView::Apu8
    } else if name == "अपू१६"@ {
        TypeView::Apu16
    } else if name == "अपू३२"@ {
        TypeView::Apu32
    } else if name == "अपू६४"@ {
        TypeView::Apu64
    } else if name == "अंश३२"@ {
        TypeView::Ansha32
    } else if name == "अंश६४"@ || name == "अंश"@ {
        TypeView::Ansha64
    } else if name == "द्वैध"@ {
        TypeView::Dvaidha
    } else if name == "वर्ण"@ {
        TypeView::Varna
    } else if name == "सूत्र"@ {
        TypeView::Sutra
    } else if name == "रिक्त"@ {
        TypeView::Rikta
    } else if name == "सूची"@ {
        TypeView::SoochiAny
    } else {
        TypeView::Struct(name)
    }
}

/// The type that a written type names.
pub open spec fn ann_type(a: AnnView) -> TypeView
    decreases a,
{
    match a {
        AnnView::Simple(name) => named_type(name),
        AnnView::Reference(inner) => TypeView::Reference(Box::new(ann_type(*inner))),
        AnnView::MutReference(inner) => TypeView::MutReference(Box::new(ann_type(*inner))),
        AnnView::List(inner) => TypeView::Soochi(Box::new(ann_type(*inner))),
    }
}

/// How a type is written in messages.
pub open spec fn type_text(t: TypeView) -> Seq<char>
    decreases t,
{
    match t {
        TypeView::Purna8 => "पूर्ण८"@,
        TypeView::Purna16 => "पूर्ण१६"@,
        TypeView::Purna32 => "पूर्ण३२"@,
        TypeView::Purna64 => "पूर्ण६४"@,
        TypeView::Apu8 => "अपू८"@,
        TypeView::Apu16 => "अपू१६"@,
        TypeView::Apu32 => "अपू३२"@,
        TypeView::Apu64 => "अपू६४"@,
        TypeView::Ansha32 => "अंश३२"@,
        TypeView::Ansha64 => "अंश६४"@,
        TypeView::Dvaidha => "द्वैध"@,
        TypeView::Varna => "वर्ण"@,
        TypeView::Sutra => "सूत्र"@,
        TypeView::Rikta => "रिक्त"@,
        TypeView::Struct(n) => n,
        TypeView::Reference(inner) => "ऋण "@ + type_text(*inner),
        TypeView::MutReference(inner) => "चलऋण "@ + type_text(*inner),
        TypeView::Soochi(inner) => "सूची["@ + type_text(*inner) + "]"@,
        TypeView::SoochiAny => "सूची"@,
        TypeView::Unknown => "अज्ञात"@,
    }
}

impl Type {
    /// Whether values of this type are copied rather than moved.
    pub fn is_copy(&self) -> (r: bool)
        ensures
            r == is_copy_spec(self@),
    {
        match self {
            Type::Purna8 | Type::Purna16 | Type::Purna32 | Type::Purna64 | Type::Apu8 | Type::Apu16
            | Type::Apu32 | Type::Apu64 | Type::Ansha32 | Type::Ansha64 | Type::Dvaidha | Type::Varna
            | Type::Rikta | Type::Reference(_) => true,
            _ => false,
        }
    }

    /// The type that a written type names.
    pub fn from_annotation(ann: &TypeAnnotation) -> (r: Type)
        ensures
            r@ == ann_type(ann_view(*ann)),
        decreases ann,
    {
        match ann {
            TypeAnnotation::Simple(name) => Self::from_name(name.as_str()),
            TypeAnnotation::Reference(inner) => Type::Reference(Box::new(Self::from_annotation(inner))),
            TypeAnnotation::MutReference(inner) => Type::MutReference(Box::new(Self::from_annotation(inner))),
            TypeAnnotation::List(inner) => Type::Soochi(Box::new(Self::from_annotation(inner))),
        }
    }

    /// The type that a simple type name names.
    pub fn from_name(name: &str) -> (r: Type)
        ensures
            r@ == named_type(name@),
    {
        if str_is(name, "पूर्ण८") {
            Type::Purna8
        } else if str_is(name, "पूर्ण१६") {
            Type::Purna16
        } else if str_is(name, "पूर्ण३२") {
            Type::Purna32
        } else if str_is(name, "पूर्ण६४") || str_is(name, "पूर्ण") {
            Type::Purna64
        } else if str_is(name, "अपू८") {
            Type::Apu8
        } else if str_is(name, "अपू१६") {
            Type::Apu16
        } else if str_is(name, "अपू३२") {
            Type::Apu32
        } else if str_is(name, "अपू६४") {
            Type::Apu64
        } else if str_is(name, "अंश३२") {
            Type::Ansha32
        } else if str_is(name, "अंश६४") || str_is(name, "अंश") {
            Type::Ansha64
        } else if str_is(name, "द्वैध") {
            Type::Dvaidha
        } else if str_is(name, "वर्ण") {
            Type::Varna
        } else if str_is(name, "सूत्र") {
            Type::Sutra
        } else if str_is(name, "रिक्त") {
            Type::Rikta
        } else if str_is(name, "सूची") {
            Type::SoochiAny
        } else {
            Type::Struct(String::from_str(name))
        }
    }

    /// A copy of this type.
    pub fn duplicate(&self) -> (r: Type)
        ensures
            r@ == self@,
        decreases self,
    {
        match self {
            Type::Purna8 => Type::Purna8,
            Type::Purna16 => Type::Purna16,
            Type::Purna32 => Type::Purna32,
            Type::Purna64 => Type::Purna64,
            Type::Apu8 => Type::Apu8,
            Type::Apu16 => Type::Apu16,
            Type::Apu32 => Type::Apu32,
            Type::Apu64 => Type::Apu64,
            Type::Ansha32 => Type::Ansha32,
            Type::Ansha64 => Type::Ansha64,
            Type::Dvaidha => Type::Dvaidha,
            Type::Varna => Type::Varna,
            Type::Sutra => Type::Sutra,
            Type::Rikta => Type::Rikta,
            Type::Struct(n) => Type::Struct(n.clone()),
            Type::Reference(b) => Type::Reference(Box::new(b.duplicate())),
            Type::MutReference(b) => Type::MutReference(Box::new(b.duplicate())),
            Type::Soochi(b) => Type::Soochi(Box::new(b.duplicate())),
            Type::SoochiAny => Type::SoochiAny,
            Type::Unknown => Type::Unknown,
        }
    }

    /// Whether two types are the same.
    pub fn same(&self, other: &Type) -> (r: bool)
        ensures
            r == (self@ == other@),
        decreases self,
    {
        match (self, other) {
            (Type::Purna8, Type::Purna8) => true,
            (Type::Purna16, Type::Purna16) => true,
            (Type::Purna32, Type::Purna32) => true,
            (Type::Purna64, Type::Purna64) => true,
            (Type::Apu8, Type::Apu8) => true,
            (Type::Apu16, Type::Apu16) => true,
            (Type::Apu32, Type::Apu32) => true,
            (Type::Apu64, Type::Apu64) => true,
            (Type::Ansha32, Type::Ansha32) => true,
            (Type::Ansha64, Type::Ansha64) => true,
            (Type::Dvaidha, Type::Dvaidha) => true,
            (Type::Varna, Type::Varna) => true,
            (Type::Sutra, Type::Sutra) => true,
            (Type::Rikta, Type::Rikta) => true,
            (Type::Struct(a), Type::Struct(b)) => *a == *b,
            (Type::Reference(a), Type::Reference(b)) => a.same(b),
            (Type::MutReference(a), Type::MutReference(b)) => a.same(b),
            (Type::Soochi(a), Type::Soochi(b)) => a.same(b),
            (Type::SoochiAny, Type::SoochiAny) => true,
            (Type::Unknown, Type::Unknown) => true,
            _ => false,
        }
    }

    /// How this type is written in messages.
    pub fn name(&self) -> (r: String)
        ensures
            r@ == type_text(self@),
        decreases self,
    {
        match self {
            Type::Purna8 => String::from_str("पूर्ण८"),
            Type::Purna16 => String::from_str("पूर्ण१६"),
            Type::Purna32 => String::from_str("पूर्ण३२"),
            Type::Purna64 => String::from_str("पूर्ण६४"),
            Type::Apu8 => String::from_str("अपू८"),
            Type::Apu16 => String::from_str("अपू१६"),
            Type::Apu32 => String::from_str("अपू३२"),
            Type::Apu64 => String::from_str("अपू६४"),
            Type::Ansha32 => String::from_str("अंश३२"),
            Type::Ansha64 => String::from_str("अंश६४"),
            Type::Dvaidha => String::from_str("द्वैध"),
            Type::Varna => String::from_str("वर्ण"),
            Type::Sutra => String::from_str("सूत्र"),
            Type::Rikta => String::from_str("रिक्त"),
            Type::Struct(n) => n.clone(),
            Type::Reference(inner) => {
                let mut s = String::from_str("ऋण ");
                let n = inner.name();
                push_str(&mut s, n.as_str());
                s
            },
            Type::MutReference(inner) => {
                let mut s = String::from_str("चलऋण ");
                let n = inner.name();
                push_str(&mut s, n.as_str());
                s
            },
            Type::Soochi(inner) => {
                let mut s = String::from_str("सूची[");
                let n = inner.name();
                push_str(&mut s, n.as_str());
                push_str(&mut s, "]");
                s
            },
            Type::SoochiAny => String::from_str("सूची"),
            Type::Unknown => String::from_str("अज्ञात"),
        }
    }
}

} // verus!
