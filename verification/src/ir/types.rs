//! The type table: every type of a module is stored once and named by its
//! index.

use crate::text::{decimal, push_decimal};
use vstd::prelude::*;
use vstd::string::StringExecFns;

verus! {

/// Index of a type in the type table.
#[derive(Clone, Copy, Debug, PartialEq, Eq, Structural, Hash)]
pub struct TypeId(pub usize);

/// `[num_elements x inner]`.
#[derive(Clone, Copy, Debug, PartialEq, Eq, Structural)]
pub struct ArrayType {
    pub inner: TypeId,
    pub num_elements: u32,
}

/// The signature of a function.
#[derive(Clone, Debug, PartialEq, Eq)]
pub struct FunctionType {
    pub ret: TypeId,
    pub params: Vec<TypeId>,
    pub is_var_arg: bool,
}

/// A type. Component types are named by their index in the same table.
#[derive(Clone, Debug, PartialEq, Eq)]
pub enum Type {
    Void,
    /// An integer of the given width in bits.
    Int(u32),
    Pointer(TypeId),
    Array(ArrayType),
    Function(FunctionType),
}

/// The mathematical value of a `Type`.
pub enum TypeView {
    Void,
    Int(u32),
    Pointer(TypeId),
    Array(TypeId, u32),
    Function(TypeId, Seq<TypeId>, bool),
}

impl View for Type {
    type V = TypeView;

    open spec fn view(&self) -> TypeView {
        match *self {
            Type::Void => TypeView::Void,
            Type::Int(bits) => TypeView::Int(bits),
            Type::Pointer(inner) => TypeView::Pointer(inner),
            Type::Array(a) => TypeView::Array(a.inner, a.num_elements),
            Type::Function(f) => TypeView::Function(f.ret, f.params@, f.is_var_arg),
        }
    }
}

/// Every component of `ty` is an index below `bound`.
pub open spec fn components_below(ty: TypeView, bound: int) -> bool {
    match ty {
        TypeView::Void => true,
        TypeView::Int(_) => true,
        TypeView::Pointer(inner) => inner.0 < bound,
        TypeView::Array(inner, _) => inner.0 < bound,
        TypeView::Function(ret, params, _) => {
            &&& ret.0 < bound
            &&& forall|i: int| 0 <= i < params.len() ==> (#[trigger] params[i]).0 < bound
        },
    }
}

/// A table is well founded when it starts with the primitive types and each
/// entry is built from entries that come before it.
pub open spec fn table_wf(table: Seq<TypeView>) -> bool {
    &&& table.len() >= 6
    &&& table[0] == TypeView::Void
    &&& table[1] == TypeView::Int(1)
    &&& table[2] == TypeView::Int(8)
    &&& table[3] == TypeView::Int(16)
    &&& table[4] == TypeView::Int(32)
    &&& table[5] == TypeView::Int(64)
    &&& forall|i: int| 0 <= i < table.len() ==> components_below(#[trigger] table[i], i)
}

/// The first index at or after `from` that holds `ty`, or the table's length
/// when there is none.
pub open spec fn first_index_of(table: Seq<TypeView>, ty: TypeView, from: int) -> int
    decreases table.len() - from,
{
    if from < 0 || from >= table.len() {
        table.len() as int
    } else if table[from] == ty {
        from
    } else {
        first_index_of(table, ty, from + 1)
    }
}

/// The table after `ty` has been interned: unchanged when `ty` is already in
/// it, else with `ty` at the end.
pub open spec fn interned(table: Seq<TypeView>, ty: TypeView) -> Seq<TypeView> {
    if first_index_of(table, ty, 0) < table.len() {
        table
    } else {
        table.push(ty)
    }
}

/// The interned type table.
pub struct Types {
    table: Vec<Type>,
}

impl View for Types {
    type V = Seq<TypeView>;

    closed spec fn view(&self) -> Seq<TypeView> {
        Seq::new(self.table@.len(), |i: int| self.table@[i]@)
    }
}

proof fn lemma_first_index_bounds(table: Seq<TypeView>, ty: TypeView, from: int)
    requires
        0 <= from <= table.len(),
    ensures
        from <= first_index_of(table, ty, from) <= table.len(),
        first_index_of(table, ty, from) < table.len() ==> table[first_index_of(table, ty, from)]
            == ty,
        forall|j: int| from <= j < first_index_of(table, ty, from) ==> table[j] != ty,
    decreases table.len() - from,
{
    if from < table.len() && table[from] != ty {
        lemma_first_index_bounds(table, ty, from + 1);
    }
}

impl Types {
    /// Validity of the table; every constructor establishes it and every
    /// method keeps it.
    pub open spec fn wf(&self) -> bool {
        table_wf(self@)
    }

    /// `ty` names an entry of this table.
    pub open spec fn contains(&self, ty: TypeId) -> bool {
        ty.0 < self@.len()
    }

    /// A table that holds the primitive types `void`, `i1`, `i8`, `i16`,
    /// `i32` and `i64`, in this order.
    pub fn new() -> (types: Types)
        ensures
            types.wf(),
            types@ == seq![
                TypeView::Void,
                TypeView::Int(1),
                TypeView::Int(8),
                TypeView::Int(16),
                TypeView::Int(32),
                TypeView::Int(64),
            ],
    {
        let mut table: Vec<Type> = Vec::new();
        table.push(Type::Void);
        table.push(Type::Int(1));
        table.push(Type::Int(8));
        table.push(Type::Int(16));
        table.push(Type::Int(32));
        table.push(Type::Int(64));
        let types = Types { table };
        assert(types@ =~= seq![
            TypeView::Void,
            TypeView::Int(1),
            TypeView::Int(8),
            TypeView::Int(16),
            TypeView::Int(32),
            TypeView::Int(64),
        ]);
        types
    }

    /// The number of types in the table.
    pub fn len(&self) -> (n: usize)
        ensures
            n == self@.len(),
    {
        self.table.len()
    }

    pub fn void(&self) -> (id: TypeId)
        ensures
            id == TypeId(0),
    {
        TypeId(0)
    }

    pub fn i1(&self) -> (id: TypeId)
        ensures
            id == TypeId(1),
    {
        TypeId(1)
    }

    pub fn i8(&self) -> (id: TypeId)
        ensures
            id == TypeId(2),
    {
        TypeId(2)
    }

    pub fn i16(&self) -> (id: TypeId)
        ensures
            id == TypeId(3),
    {
        TypeId(3)
    }

    pub fn i32(&self) -> (id: TypeId)
        ensures
            id == TypeId(4),
    {
        TypeId(4)
    }

    pub fn i64(&self) -> (id: TypeId)
        ensures
            id == TypeId(5),
    {
        TypeId(5)
    }

    /// The type that `id` names, or `None` when `id` is not in the table.
    pub fn get(&self, id: TypeId) -> (ty: Option<&Type>)
        ensures
            match ty {
                Some(t) => self.contains(id) && t@ == self@[id.0 as int],
                None => !self.contains(id),
            },
    {
        if id.0 < self.table.len() {
            Some(&self.table[id.0])
        } else {
            None
        }
    }

    /// Whether `id` names the 32-bit integer type.
    pub fn is_i32(&self, id: TypeId) -> (yes: bool)
        ensures
            yes == (self.contains(id) && self@[id.0 as int] == TypeView::Int(32)),
    {
        match self.get(id) {
            Some(Type::Int(bits)) => *bits == 32,
            _ => false,
        }
    }

    fn find(&self, ty: &Type) -> (index: usize)
        ensures
            index == first_index_of(self@, ty@, 0),
    {
        let mut i: usize = 0;
        proof {
            lemma_first_index_bounds(self@, ty@, 0);
        }
        while i < self.table.len()
            invariant
                0 <= i <= self.table@.len(),
                self@.len() == self.table@.len(),
                first_index_of(self@, ty@, 0) == first_index_of(self@, ty@, i as int),
            decreases self.table@.len() - i,
        {
            if same_type(&self.table[i], ty) {
                return i;
            }
            i = i + 1;
        }
        i
    }

    /// Interns `ty`: returns the index of the first entry equal to it, or
    /// appends it when the table has none.
    fn intern(&mut self, ty: Type) -> (id: TypeId)
        requires
            old(self).wf(),
            components_below(ty@, old(self)@.len() as int),
        ensures
            final(self).wf(),
            final(self)@ == interned(old(self)@, ty@),
            id.0 == first_index_of(old(self)@, ty@, 0),
            final(self).contains(id),
            final(self)@[id.0 as int] == ty@,
    {
        proof {
            lemma_first_index_bounds(self@, ty@, 0);
        }
        let index = self.find(&ty);
        if index == self.table.len() {
            let ghost before = self@;
            self.table.push(ty);
            assert(self@ =~= before.push(ty@));
        }
        TypeId(index)
    }

    /// The pointer type to `inner`.
    pub fn pointer_to(&mut self, inner: TypeId) -> (id: TypeId)
        requires
            old(self).wf(),
            old(self).contains(inner),
        ensures
            final(self).wf(),
            final(self)@ == interned(old(self)@, TypeView::Pointer(inner)),
            id.0 == first_index_of(old(self)@, TypeView::Pointer(inner), 0),
            final(self).contains(id),
            final(self)@[id.0 as int] == TypeView::Pointer(inner),
    {
        self.intern(Type::Pointer(inner))
    }

    /// The array type of `num_elements` elements of `inner`.
    pub fn array_of(&mut self, inner: TypeId, num_elements: u32) -> (id: TypeId)
        requires
            old(self).wf(),
            old(self).contains(inner),
        ensures
            final(self).wf(),
            final(self)@ == interned(old(self)@, TypeView::Array(inner, num_elements)),
            id.0 == first_index_of(old(self)@, TypeView::Array(inner, num_elements), 0),
            final(self).contains(id),
            final(self)@[id.0 as int] == TypeView::Array(inner, num_elements),
    {
        self.intern(Type::Array(ArrayType { inner, num_elements }))
    }

    /// The integer type of the given width.
    pub fn int_of(&mut self, bits: u32) -> (id: TypeId)
        requires
            old(self).wf(),
        ensures
            final(self).wf(),
            final(self)@ == interned(old(self)@, TypeView::Int(bits)),
            id.0 == first_index_of(old(self)@, TypeView::Int(bits), 0),
            final(self).contains(id),
            final(self)@[id.0 as int] == TypeView::Int(bits),
    {
        self.intern(Type::Int(bits))
    }

    /// The function type with the given result and parameters.
    pub fn function(&mut self, ret: TypeId, params: Vec<TypeId>, is_var_arg: bool) -> (id: TypeId)
        requires
            old(self).wf(),
            old(self).contains(ret),
            forall|i: int| 0 <= i < params@.len() ==> old(self).contains(#[trigger] params@[i]),
        ensures
            final(self).wf(),
            final(self)@ == interned(old(self)@, TypeView::Function(ret, params@, is_var_arg)),
            id.0 == first_index_of(old(self)@, TypeView::Function(ret, params@, is_var_arg), 0),
            final(self).contains(id),
            final(self)@[id.0 as int] == TypeView::Function(ret, params@, is_var_arg),
    {
        self.intern(Type::Function(FunctionType { ret, params, is_var_arg }))
    }
}

/// Whether two lists of type ids are equal.
fn same_ids(a: &Vec<TypeId>, b: &Vec<TypeId>) -> (same: bool)
    ensures
        same == (a@ == b@),
{
    if a.len() != b.len() {
        return false;
    }
    let mut i: usize = 0;
    while i < a.len()
        invariant
            0 <= i <= a@.len(),
            a@.len() == b@.len(),
            forall|j: int| 0 <= j < i ==> a@[j] == b@[j],
        decreases a@.len() - i,
    {
        if a[i].0 != b[i].0 {
            return false;
        }
        i = i + 1;
    }
    assert(a@ =~= b@);
    true
}

/// Whether two types have the same value.
pub fn same_type(a: &Type, b: &Type) -> (same: bool)
    ensures
        same == (a@ == b@),
{
    match (a, b) {
        (Type::Void, Type::Void) => true,
        (Type::Int(x), Type::Int(y)) => *x == *y,
        (Type::Pointer(x), Type::Pointer(y)) => x.0 == y.0,
        (Type::Array(x), Type::Array(y)) => x.inner.0 == y.inner.0 && x.num_elements
            == y.num_elements,
        (Type::Function(f), Type::Function(g)) => f.ret.0 == g.ret.0 && f.is_var_arg
            == g.is_var_arg && same_ids(&f.params, &g.params),
        _ => false,
    }
}

/// The size in bytes of the type `ty` of `table`: nothing for `void` and for
/// functions, the width in whole bytes for an integer, a machine word for a
/// pointer, and for an array the size of one element times their number.
pub open spec fn size_of(table: Seq<TypeView>, ty: TypeId) -> nat
    decreases ty.0,
{
    if ty.0 >= table.len() {
        0
    } else {
        match table[ty.0 as int] {
            TypeView::Void => 0,
            TypeView::Int(bits) => (bits / 8) as nat,
            TypeView::Pointer(_) => 8,
            TypeView::Array(inner, n) => if inner.0 < ty.0 {
                size_of(table, inner) * (n as nat)
            } else {
                0
            },
            TypeView::Function(_, _, _) => 0,
        }
    }
}

/// The text of the type `ty` of `table`: `void`, `i` and the width,
/// the pointee and `*`, `[` count ` x ` element `]`, or the result and the
/// parameters in parentheses. A type that the table does not have has no
/// text.
pub open spec fn type_text(table: Seq<TypeView>, ty: TypeId) -> Seq<char>
    decreases ty.0, (if ty.0 < table.len() && table[ty.0 as int] is Function {
        table[ty.0 as int]->Function_1.len() + 1
    } else {
        0
    }),
{
    if ty.0 >= table.len() {
        Seq::empty()
    } else {
        match table[ty.0 as int] {
            TypeView::Void => "void"@,
            TypeView::Int(bits) => "i"@ + decimal(bits as nat),
            TypeView::Pointer(inner) => if inner.0 < ty.0 {
                type_text(table, inner) + "*"@
            } else {
                Seq::empty()
            },
            TypeView::Array(inner, n) => if inner.0 < ty.0 {
                "["@ + decimal(n as nat) + " x "@ + type_text(table, inner) + "]"@
            } else {
                Seq::empty()
            },
            TypeView::Function(ret, params, is_var_arg) => if ret.0 < ty.0 {
                type_text(table, ret) + " ("@ + params_text(table, ty, params.len()) + (
                if is_var_arg {
                    "...)"@
                } else {
                    ")"@
                })
            } else {
                Seq::empty()
            },
        }
    }
}

/// The text of the first `n` parameters of the function type `ty`, each
/// followed by a comma and a space.
pub open spec fn params_text(table: Seq<TypeView>, ty: TypeId, n: nat) -> Seq<char>
    decreases ty.0, n,
{
    if n == 0 || ty.0 >= table.len() || !(table[ty.0 as int] is Function) || n
        > table[ty.0 as int]->Function_1.len() {
        Seq::empty()
    } else {
        let param = table[ty.0 as int]->Function_1[n - 1];
        params_text(table, ty, (n - 1) as nat) + (if param.0 < ty.0 {
            type_text(table, param)
        } else {
            Seq::empty()
        }) + ", "@
    }
}

impl Types {
    /// The text of the type `ty`, as `type_text` defines it.
    pub fn to_string(&self, ty: TypeId) -> (text: String)
        requires
            self.wf(),
        ensures
            text@ == type_text(self@, ty),
        decreases ty.0,
    {
        let mut text = String::new();
        let entry = match self.get(ty) {
            None => {
                assert(text@ =~= type_text(self@, ty));
                return text;
            },
            Some(entry) => entry,
        };
        assert(components_below(self@[ty.0 as int], ty.0 as int));
        match entry {
            Type::Void => {
                text.append("void");
            },
            Type::Int(bits) => {
                text.append("i");
                push_decimal(&mut text, *bits as usize);
            },
            Type::Pointer(inner) => {
                let pointee = self.to_string(*inner);
                text.append(pointee.as_str());
                text.append("*");
            },
            Type::Array(array) => {
                text.append("[");
                push_decimal(&mut text, array.num_elements as usize);
                text.append(" x ");
                let element = self.to_string(array.inner);
                text.append(element.as_str());
                text.append("]");
            },
            Type::Function(function) => {
                let ret = self.to_string(function.ret);
                text.append(ret.as_str());
                text.append(" (");
                let ghost prefix = text@;
                let mut i: usize = 0;
                while i < function.params.len()
                    invariant
                        self.wf(),
                        self.contains(ty),
                        self@[ty.0 as int] == TypeView::Function(
                            function.ret,
                            function.params@,
                            function.is_var_arg,
                        ),
                        0 <= i <= function.params@.len(),
                        text@ == prefix + params_text(self@, ty, i as nat),
                    decreases function.params@.len() - i,
                {
                    let ghost before = text@;
                    assert(components_below(self@[ty.0 as int], ty.0 as int));
                    assert(function.params@[i as int].0 < ty.0);
                    let param = self.to_string(function.params[i]);
                    text.append(param.as_str());
                    text.append(", ");
                    i = i + 1;
                    assert(text@ =~= prefix + params_text(self@, ty, i as nat));
                }
                if function.is_var_arg {
                    text.append("...)");
                } else {
                    text.append(")");
                }
            },
        }
        assert(text@ =~= type_text(self@, ty));
        text
    }
}

} // verus!
