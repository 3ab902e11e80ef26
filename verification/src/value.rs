//! Value objects: typed literals, language-tagged strings and JSON literals.
use vstd::prelude::*;
use crate::json::Json;
use crate::lang_string::LangString;
use crate::syntax::Direction;

verus! {

/// Value type: a JSON literal, or a datatype IRI.
#[derive(Clone, Debug, PartialEq, Eq, Hash)]
pub enum Type<T> {
    Json,
    Id(T),
}

impl<T> Type<T> {
    /// The datatype IRI, if any.
    pub fn as_reference(&self) -> (r: Option<&T>)
        ensures
            match self {
                Type::Json => r is None,
                Type::Id(t) => r == Some(t),
            },
    {
        match self {
            Type::Json => None,
            Type::Id(t) => Some(t),
        }
    }

    /// A reference to this value type.
    pub fn as_type_ref(&self) -> (r: TypeRef<'_, T>)
        ensures
            match self {
                Type::Json => r is Json,
                Type::Id(t) => r == TypeRef::Id(t),
            },
    {
        match self {
            Type::Json => TypeRef::Json,
            Type::Id(t) => TypeRef::Id(t),
        }
    }
}

/// Reference to a value type.
#[derive(Debug)]
pub enum TypeRef<'a, T> {
    Json,
    Id(&'a T),
}

impl<'a, T> TypeRef<'a, T> {
    /// The datatype IRI, if any.
    pub fn into_reference(self) -> (r: Option<&'a T>)
        ensures
            match self {
                TypeRef::Json => r is None,
                TypeRef::Id(t) => r == Some(t),
            },
    {
        match self {
            TypeRef::Json => None,
            TypeRef::Id(t) => Some(t),
        }
    }
}

impl<'a> TypeRef<'a, String> {
    /// The type mapping of a term definition that gives this value type:
    /// `@json`, or the datatype IRI.
    pub fn as_syntax_type(&self) -> (r: crate::context::Type)
        ensures
            match *self {
                TypeRef::Json => r@ == crate::context::TypeV::Json,
                TypeRef::Id(t) => r@ == crate::context::TypeV::Ref(t@),
            },
    {
        match self {
            TypeRef::Json => crate::context::Type::Json,
            TypeRef::Id(t) => crate::context::Type::Ref((*t).clone()),
        }
    }
}

/// A literal value. A number keeps its lexical form.
#[derive(Debug)]
pub enum Literal {
    Null,
    Boolean(bool),
    Number(String),
    String(String),
}

impl Literal {
    /// The string, if this literal is one.
    pub fn as_str(&self) -> (r: Option<&str>)
        ensures
            match self {
                Literal::String(s) => r matches Some(x) && x@ == s@,
                _ => r is None,
            },
    {
        match self {
            Literal::String(s) => Some(s.as_str()),
            _ => None,
        }
    }

    /// The boolean, if this literal is one.
    pub fn as_bool(&self) -> (r: Option<bool>)
        ensures
            match self {
                Literal::Boolean(b) => r == Some(*b),
                _ => r is None,
            },
    {
        match self {
            Literal::Boolean(b) => Some(*b),
            _ => None,
        }
    }

    /// The lexical form of the number, if this literal is one.
    pub fn as_number(&self) -> (r: Option<&str>)
        ensures
            match self {
                Literal::Number(n) => r matches Some(x) && x@ == n@,
                _ => r is None,
            },
    {
        match self {
            Literal::Number(n) => Some(n.as_str()),
            _ => None,
        }
    }
}

/// A value object: a literal with an optional datatype, a language-tagged
/// string, or a JSON literal.
#[derive(Debug)]
pub enum Value<T> {
    Literal(Literal, Option<T>),
    LangString(LangString),
    Json(Json),
}

impl<T> Value<T> {
    /// The text of a string literal or of a language-tagged string.
    pub fn as_str(&self) -> (r: Option<&str>)
        ensures
            match self {
                Value::Literal(Literal::String(s), _) => r matches Some(x) && x@ == s@,
                Value::LangString(s) => r matches Some(x) && x@ == s@.data,
                _ => r is None,
            },
    {
        match self {
            Value::Literal(lit, _) => lit.as_str(),
            Value::LangString(s) => Some(s.as_str()),
            Value::Json(_) => None,
        }
    }

    /// The literal and its datatype, if this is a literal.
    pub fn as_literal(&self) -> (r: Option<(&Literal, Option<&T>)>)
        ensures
            match self {
                Value::Literal(l, t) => r matches Some((a, b)) && *a == *l && b == (match t { Some(x) => Some(x), None => None::<&T> }),
                _ => r is None,
            },
    {
        match self {
            Value::Literal(lit, ty) => Some((lit, ty.as_ref())),
            _ => None,
        }
    }

    /// The datatype of a literal, if any.
    pub fn literal_type(&self) -> (r: Option<&T>)
        ensures
            match self {
                Value::Literal(_, Some(t)) => r == Some(t),
                _ => r is None,
            },
    {
        match self {
            Value::Literal(_, ty) => ty.as_ref(),
            _ => None,
        }
    }

    /// Sets the datatype of a literal and gives back the former one; does
    /// nothing and gives `None` when this is not a literal.
    pub fn set_literal_type(&mut self, ty: Option<T>) -> (r: Option<T>)
        ensures
            match *old(self) {
                Value::Literal(l, t) => r == t && *final(self) == Value::Literal(l, ty),
                _ => r is None && *final(self) == *old(self),
            },
    {
        match self {
            Value::Literal(_, old_ty) => {
                let mut t = ty;
                std::mem::swap(old_ty, &mut t);
                t
            },
            _ => None,
        }
    }

    /// Replaces the datatype of a literal by what `f` makes of it; does
    /// nothing when this is not a literal.
    pub fn map_literal_type<F: FnOnce(Option<T>) -> Option<T>>(&mut self, f: F)
        requires
            forall|t: Option<T>| f.requires((t,)),
        ensures
            match *old(self) {
                Value::Literal(l, t) => exists|u: Option<T>| f.ensures((t,), u) && *final(self) == Value::Literal(l, u),
                _ => *final(self) == *old(self),
            },
    {
        match self {
            Value::Literal(_, ty) => {
                let t = ty.take();
                *ty = f(t);
            },
            _ => {},
        }
    }

    /// The boolean, if this is a boolean literal.
    pub fn as_bool(&self) -> (r: Option<bool>)
        ensures
            match self {
                Value::Literal(Literal::Boolean(b), _) => r == Some(*b),
                _ => r is None,
            },
    {
        match self {
            Value::Literal(lit, _) => lit.as_bool(),
            _ => None,
        }
    }

    /// The lexical form of the number, if this is a number literal.
    pub fn as_number(&self) -> (r: Option<&str>)
        ensures
            match self {
                Value::Literal(Literal::Number(n), _) => r matches Some(x) && x@ == n@,
                _ => r is None,
            },
    {
        match self {
            Value::Literal(lit, _) => lit.as_number(),
            _ => None,
        }
    }

    /// The type of the value: the datatype of a literal, or JSON for a JSON
    /// literal.
    pub fn typ(&self) -> (r: Option<TypeRef<'_, T>>)
        ensures
            match self {
                Value::Literal(_, Some(t)) => r == Some(TypeRef::Id(t)),
                Value::Json(_) => r matches Some(TypeRef::Json),
                _ => r is None,
            },
    {
        match self {
            Value::Literal(_, Some(ty)) => Some(TypeRef::Id(ty)),
            Value::Json(_) => Some(TypeRef::Json),
            _ => None,
        }
    }

    /// The language of a language-tagged string, if any.
    pub fn language(&self) -> (r: Option<&String>)
        ensures
            match self {
                Value::LangString(s) => (match r { Some(l) => Some(l@), None => None }) == s@.language,
                _ => r is None,
            },
    {
        match self {
            Value::LangString(s) => s.language(),
            _ => None,
        }
    }

    /// The direction of a language-tagged string, if any.
    pub fn direction(&self) -> (r: Option<Direction>)
        ensures
            match self {
                Value::LangString(s) => r == s@.direction,
                _ => r is None,
            },
    {
        match self {
            Value::LangString(s) => s.direction(),
            _ => None,
        }
    }
}

} // verus!
