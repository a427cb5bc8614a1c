//! A list of all the identifiers in the parameters of a command supported by this firmware.
//!
//! Check the documentation of [`parameters`] for more details.
//!
//! [`parameters`]: super
use std::marker::PhantomData;

use vstd::prelude::*;
use vstd::string::StringSliceAdditionalSpecFns;

verus! {

/// An identifier supported by this firmware.
///
/// Check the [`module's`] documentation for more details.
///
/// [`module's`]: self
pub trait GCodeParameterIdentifier: Copy + Default {
    /// The strings that [`GCodeParameterIdentifier::is_this`] can check.
    spec fn spec_can_check(string: Seq<u8>) -> bool;

    /// Checks if the identifier is at the start of (or in) `string`: returns the number of
    /// characters of the identifier found, or `Err(())` when it isn't there.
    fn is_this(&mut self, string: &str) -> (result: Result<usize, ()>)
        requires
            Self::spec_can_check(string.spec_bytes()),
    ;
}

/// A [`GCodeParameterIdentifier`] which is a single letter (like `X` or `Y`).
pub trait GCodeParameterIdentifierLetter: GCodeParameterIdentifier {
    /// The ASCII code of the letter.
    const LETTER: u8;
}

/// `string` starts with the byte `letter`.
pub open spec fn spec_starts_with_letter(string: Seq<u8>, letter: u8) -> bool {
    string[0] == letter
}

/// Returns `Ok(1)` if `string` starts with the byte `letter`, otherwise `Err(())`.
fn is_letter(letter: u8, string: &str) -> (result: Result<usize, ()>)
    requires
        string.spec_bytes().len() > 0,
    ensures
        result == (if spec_starts_with_letter(string.spec_bytes(), letter) {
            Ok::<usize, ()>(1)
        } else {
            Err(())
        }),
{
    let result = letter == string.as_bytes()[0];
    if !result {
        Err(())
    } else {
        Ok(1)
    }
}

/// Letter `E`.
#[derive(Clone, Copy, Debug, PartialEq, Eq, Structural)]
pub struct E;

/// Letter `F`.
#[derive(Clone, Copy, Debug, PartialEq, Eq, Structural)]
pub struct F;

/// Letter `P`.
#[derive(Clone, Copy, Debug, PartialEq, Eq, Structural)]
pub struct P;

/// Letter `R`.
#[derive(Clone, Copy, Debug, PartialEq, Eq, Structural)]
pub struct R;

/// Letter `S`.
#[derive(Clone, Copy, Debug, PartialEq, Eq, Structural)]
pub struct S;

/// Letter `X`.
#[derive(Clone, Copy, Debug, PartialEq, Eq, Structural)]
pub struct X;

/// Letter `Y`.
#[derive(Clone, Copy, Debug, PartialEq, Eq, Structural)]
pub struct Y;

/// Letter `Z`.
#[derive(Clone, Copy, Debug, PartialEq, Eq, Structural)]
pub struct Z;

impl Default for E {
    fn default() -> (letter: Self) {
        E
    }
}

impl GCodeParameterIdentifier for E {
    open spec fn spec_can_check(string: Seq<u8>) -> bool {
        string.len() > 0
    }

    fn is_this(&mut self, string: &str) -> (result: Result<usize, ()>)
        ensures
            result == (if spec_starts_with_letter(string.spec_bytes(), Self::LETTER) {
                Ok::<usize, ()>(1)
            } else {
                Err(())
            }),
    {
        is_letter(Self::LETTER, string)
    }
}

impl GCodeParameterIdentifierLetter for E {
    const LETTER: u8 = 0x45;  // ASCII 'E'
}

impl Default for F {
    fn default() -> (letter: Self) {
        F
    }
}

impl GCodeParameterIdentifier for F {
    open spec fn spec_can_check(string: Seq<u8>) -> bool {
        string.len() > 0
    }

    fn is_this(&mut self, string: &str) -> (result: Result<usize, ()>)
        ensures
            result == (if spec_starts_with_letter(string.spec_bytes(), Self::LETTER) {
                Ok::<usize, ()>(1)
            } else {
                Err(())
            }),
    {
        is_letter(Self::LETTER, string)
    }
}

impl GCodeParameterIdentifierLetter for F {
    const LETTER: u8 = 0x46;  // ASCII 'F'
}

impl Default for P {
    fn default() -> (letter: Self) {
        P
    }
}

impl GCodeParameterIdentifier for P {
    open spec fn spec_can_check(string: Seq<u8>) -> bool {
        string.len() > 0
    }

    fn is_this(&mut self, string: &str) -> (result: Result<usize, ()>)
        ensures
            result == (if spec_starts_with_letter(string.spec_bytes(), Self::LETTER) {
                Ok::<usize, ()>(1)
            } else {
                Err(())
            }),
    {
        is_letter(Self::LETTER, string)
    }
}

impl GCodeParameterIdentifierLetter for P {
    const LETTER: u8 = 0x50;  // ASCII 'P'
}

impl Default for R {
    fn default() -> (letter: Self) {
        R
    }
}

impl GCodeParameterIdentifier for R {
    open spec fn spec_can_check(string: Seq<u8>) -> bool {
        string.len() > 0
    }

    fn is_this(&mut self, string: &str) -> (result: Result<usize, ()>)
        ensures
            result == (if spec_starts_with_letter(string.spec_bytes(), Self::LETTER) {
                Ok::<usize, ()>(1)
            } else {
                Err(())
            }),
    {
        is_letter(Self::LETTER, string)
    }
}

impl GCodeParameterIdentifierLetter for R {
    const LETTER: u8 = 0x52;  // ASCII 'R'
}

impl Default for S {
    fn default() -> (letter: Self) {
        S
    }
}

impl GCodeParameterIdentifier for S {
    open spec fn spec_can_check(string: Seq<u8>) -> bool {
        string.len() > 0
    }

    fn is_this(&mut self, string: &str) -> (result: Result<usize, ()>)
        ensures
            result == (if spec_starts_with_letter(string.spec_bytes(), Self::LETTER) {
                Ok::<usize, ()>(1)
            } else {
                Err(())
            }),
    {
        is_letter(Self::LETTER, string)
    }
}

impl GCodeParameterIdentifierLetter for S {
    const LETTER: u8 = 0x53;  // ASCII 'S'
}

impl Default for X {
    fn default() -> (letter: Self) {
        X
    }
}

impl GCodeParameterIdentifier for X {
    open spec fn spec_can_check(string: Seq<u8>) -> bool {
        string.len() > 0
    }

    fn is_this(&mut self, string: &str) -> (result: Result<usize, ()>)
        ensures
            result == (if spec_starts_with_letter(string.spec_bytes(), Self::LETTER) {
                Ok::<usize, ()>(1)
            } else {
                Err(())
            }),
    {
        is_letter(Self::LETTER, string)
    }
}

impl GCodeParameterIdentifierLetter for X {
    const LETTER: u8 = 0x58;  // ASCII 'X'
}

impl Default for Y {
    fn default() -> (letter: Self) {
        Y
    }
}

impl GCodeParameterIdentifier for Y {
    open spec fn spec_can_check(string: Seq<u8>) -> bool {
        string.len() > 0
    }

    fn is_this(&mut self, string: &str) -> (result: Result<usize, ()>)
        ensures
            result == (if spec_starts_with_letter(string.spec_bytes(), Self::LETTER) {
                Ok::<usize, ()>(1)
            } else {
                Err(())
            }),
    {
        is_letter(Self::LETTER, string)
    }
}

impl GCodeParameterIdentifierLetter for Y {
    const LETTER: u8 = 0x59;  // ASCII 'Y'
}

impl Default for Z {
    fn default() -> (letter: Self) {
        Z
    }
}

impl GCodeParameterIdentifier for Z {
    open spec fn spec_can_check(string: Seq<u8>) -> bool {
        string.len() > 0
    }

    fn is_this(&mut self, string: &str) -> (result: Result<usize, ()>)
        ensures
            result == (if spec_starts_with_letter(string.spec_bytes(), Self::LETTER) {
                Ok::<usize, ()>(1)
            } else {
                Err(())
            }),
    {
        is_letter(Self::LETTER, string)
    }
}

impl GCodeParameterIdentifierLetter for Z {
    const LETTER: u8 = 0x5A;  // ASCII 'Z'
}

/// The bit of the `i`-th identifier of a group (a group has at most 6 identifiers).
pub open spec fn spec_bit(i: int) -> u16 {
    if i == 0 {
        1
    } else if i == 1 {
        2
    } else if i == 2 {
        4
    } else if i == 3 {
        8
    } else if i == 4 {
        16
    } else {
        32
    }
}

/// The bits of the letters of `letters` that are in `string`: the bit `i` is set when the letter
/// at `i` is in `string`.
pub open spec fn spec_group_mask(letters: Seq<u8>, string: Seq<u8>) -> int
    decreases letters.len(),
{
    if letters.len() == 0 {
        0
    } else {
        spec_group_mask(letters.drop_last(), string) + if string.contains(letters.last()) {
            spec_bit(letters.len() - 1) as int
        } else {
            0
        }
    }
}

/// The number of letters of `letters` that are in `string`.
pub open spec fn spec_group_count(letters: Seq<u8>, string: Seq<u8>) -> int
    decreases letters.len(),
{
    if letters.len() == 0 {
        0
    } else {
        spec_group_count(letters.drop_last(), string) + if string.contains(letters.last()) {
            1int
        } else {
            0
        }
    }
}

/// The index of the first letter of `letters` that is `letter`, or the number of letters when
/// there isn't one.
pub open spec fn spec_letter_position(letters: Seq<u8>, letter: u8) -> int
    decreases letters.len(),
{
    if letters.len() == 0 {
        0
    } else {
        let k = spec_letter_position(letters.drop_last(), letter);
        if k < letters.len() - 1 {
            k
        } else if letters.last() == letter {
            letters.len() - 1
        } else {
            letters.len() as int
        }
    }
}

/// The first letter of `letters` that is `letter` is at [`spec_letter_position`].
proof fn lemma_letter_position(letters: Seq<u8>, letter: u8)
    ensures
        0 <= spec_letter_position(letters, letter) <= letters.len(),
        forall|j: int| 0 <= j < spec_letter_position(letters, letter) ==> letters[j] != letter,
        spec_letter_position(letters, letter) < letters.len() ==> letters[spec_letter_position(letters, letter)] == letter,
    decreases letters.len(),
{
    if letters.len() > 0 {
        let rest = letters.drop_last();
        lemma_letter_position(rest, letter);
        assert forall|j: int| 0 <= j < spec_letter_position(letters, letter) implies letters[j] != letter by {
            if j < letters.len() - 1 {
                assert(rest[j] == letters[j]);
            }
        }
    }
}

/// The identifier at `position` in a group is present when the bit `position` of `bit_mask` is
/// set; an identifier that isn't in the group is never present.
pub open spec fn spec_is_present(letters: Seq<u8>, letter: u8, bit_mask: u16) -> bool {
    let position = spec_letter_position(letters, letter);
    position < letters.len() && (bit_mask & spec_bit(position)) != 0
}

/// Returns `true` if `bytes` contains `letter`.
fn contains_byte(bytes: &[u8], letter: u8) -> (found: bool)
    ensures
        found == bytes@.contains(letter),
{
    let mut i: usize = 0;
    while i < bytes.len()
        invariant
            i <= bytes@.len(),
            forall|j: int| 0 <= j < i ==> bytes@[j] != letter,
        decreases bytes@.len() - i,
    {
        if bytes[i] == letter {
            return true;
        }
        i = i + 1;
    }
    false
}

/// A group of letters (see [`AnyWithoutSpaces`]).
pub trait IdentifierInGroup: Sized {
    /// The letters of the group, in order.
    spec fn spec_letters() -> Seq<u8>;

    /// Returns the letters of the group, in order.
    fn letters() -> (letters: Vec<u8>)
        ensures
            letters@ == Self::spec_letters(),
            letters@.len() <= 6,
    ;

    /// Returns the bits of the letters of the group that are in `string` (the bit `i` is set when
    /// the `i`-th letter is in `string`) and the number of those letters.
    fn is_this(string: &str) -> (result: (u16, usize))
        ensures
            result.0 == spec_group_mask(Self::spec_letters(), string.spec_bytes()),
            result.1 == spec_group_count(Self::spec_letters(), string.spec_bytes()),
    {
        let letters = Self::letters();
        let bytes = string.as_bytes();
        let mut i: u16 = 1;
        let mut total_bits: u16 = 0;
        let mut total_chars_count: usize = 0;
        let mut j: usize = 0;
        while j < letters.len()
            invariant
                letters@ == Self::spec_letters(),
                letters@.len() <= 6,
                bytes@ == string.spec_bytes(),
                j <= letters@.len(),
                i == spec_bit(j as int) || j == 6,
                j == 6 ==> i == 64,
                total_bits == spec_group_mask(letters@.take(j as int), bytes@),
                total_bits < i,
                total_chars_count == spec_group_count(letters@.take(j as int), bytes@),
                total_chars_count <= j,
            decreases letters@.len() - j,
        {
            proof {
                assert(letters@.take(j + 1).drop_last() =~= letters@.take(j as int));
                assert(letters@.take(j + 1).last() == letters@[j as int]);
            }
            if contains_byte(bytes, letters[j]) {
                let old_bits = total_bits;
                assert(old_bits | i == old_bits + i) by (bit_vector)
                    requires
                        old_bits < i,
                        i == 1 || i == 2 || i == 4 || i == 8 || i == 16 || i == 32,
                ;
                total_bits = total_bits | i;
                total_chars_count = total_chars_count + 1;
            }
            assert(i << 1u16 == i * 2) by (bit_vector)
                requires
                    i <= 32,
            ;
            i = i << 1;
            j = j + 1;
        }
        assert(letters@.take(j as int) =~= letters@);
        (total_bits, total_chars_count)
    }

    /// Returns `true` if the identifier `I` is in the group and its bit is set in `bit_mask`.
    fn is_identifier_present<I: GCodeParameterIdentifierLetter>(bit_mask: u16) -> (present: bool)
        ensures
            present == spec_is_present(Self::spec_letters(), I::LETTER, bit_mask),
    {
        let letters = Self::letters();
        proof {
            lemma_letter_position(letters@, I::LETTER);
        }
        let ghost position = spec_letter_position(letters@, I::LETTER);
        let mut i: u16 = 1;
        let mut j: usize = 0;
        while j < letters.len()
            invariant
                letters@ == Self::spec_letters(),
                letters@.len() <= 6,
                j <= position,
                position == spec_letter_position(letters@, I::LETTER),
                0 <= position <= letters@.len(),
                forall|k: int| 0 <= k < position ==> letters@[k] != I::LETTER,
                position < letters@.len() ==> letters@[position] == I::LETTER,
                i == spec_bit(j as int) || j == 6,
            decreases letters@.len() - j,
        {
            if letters[j] == I::LETTER {
                assert(j == position);
                assert(i & bit_mask == bit_mask & i) by (bit_vector);
                return (i & bit_mask) != 0;
            }
            assert(i << 1u16 == i * 2) by (bit_vector)
                requires
                    i <= 32,
            ;
            i = i << 1;
            j = j + 1;
        }
        false
    }
}

impl<T: GCodeParameterIdentifierLetter> IdentifierInGroup for T {
    open spec fn spec_letters() -> Seq<u8> {
        seq![T::LETTER]
    }

    fn letters() -> (letters: Vec<u8>) {
        let letters = vec![T::LETTER];
        assert(letters@ =~= seq![T::LETTER]);
        letters
    }
}

impl<T1: GCodeParameterIdentifierLetter, T2: GCodeParameterIdentifierLetter> IdentifierInGroup for (T1, T2) {
    open spec fn spec_letters() -> Seq<u8> {
        seq![T1::LETTER, T2::LETTER]
    }

    fn letters() -> (letters: Vec<u8>) {
        let letters = vec![T1::LETTER, T2::LETTER];
        assert(letters@ =~= seq![T1::LETTER, T2::LETTER]);
        letters
    }
}

impl<
    T1: GCodeParameterIdentifierLetter,
    T2: GCodeParameterIdentifierLetter,
    T3: GCodeParameterIdentifierLetter,
> IdentifierInGroup for (T1, T2, T3) {
    open spec fn spec_letters() -> Seq<u8> {
        seq![T1::LETTER, T2::LETTER, T3::LETTER]
    }

    fn letters() -> (letters: Vec<u8>) {
        let letters = vec![T1::LETTER, T2::LETTER, T3::LETTER];
        assert(letters@ =~= seq![T1::LETTER, T2::LETTER, T3::LETTER]);
        letters
    }
}

impl<
    T1: GCodeParameterIdentifierLetter,
    T2: GCodeParameterIdentifierLetter,
    T3: GCodeParameterIdentifierLetter,
    T4: GCodeParameterIdentifierLetter,
> IdentifierInGroup for (T1, T2, T3, T4) {
    open spec fn spec_letters() -> Seq<u8> {
        seq![T1::LETTER, T2::LETTER, T3::LETTER, T4::LETTER]
    }

    fn letters() -> (letters: Vec<u8>) {
        let letters = vec![T1::LETTER, T2::LETTER, T3::LETTER, T4::LETTER];
        assert(letters@ =~= seq![T1::LETTER, T2::LETTER, T3::LETTER, T4::LETTER]);
        letters
    }
}

impl<
    T1: GCodeParameterIdentifierLetter,
    T2: GCodeParameterIdentifierLetter,
    T3: GCodeParameterIdentifierLetter,
    T4: GCodeParameterIdentifierLetter,
    T5: GCodeParameterIdentifierLetter,
> IdentifierInGroup for (T1, T2, T3, T4, T5) {
    open spec fn spec_letters() -> Seq<u8> {
        seq![T1::LETTER, T2::LETTER, T3::LETTER, T4::LETTER, T5::LETTER]
    }

    fn letters() -> (letters: Vec<u8>) {
        let letters = vec![T1::LETTER, T2::LETTER, T3::LETTER, T4::LETTER, T5::LETTER];
        assert(letters@ =~= seq![T1::LETTER, T2::LETTER, T3::LETTER, T4::LETTER, T5::LETTER]);
        letters
    }
}

impl<
    T1: GCodeParameterIdentifierLetter,
    T2: GCodeParameterIdentifierLetter,
    T3: GCodeParameterIdentifierLetter,
    T4: GCodeParameterIdentifierLetter,
    T5: GCodeParameterIdentifierLetter,
    T6: GCodeParameterIdentifierLetter,
> IdentifierInGroup for (T1, T2, T3, T4, T5, T6) {
    open spec fn spec_letters() -> Seq<u8> {
        seq![T1::LETTER, T2::LETTER, T3::LETTER, T4::LETTER, T5::LETTER, T6::LETTER]
    }

    fn letters() -> (letters: Vec<u8>) {
        let letters = vec![T1::LETTER, T2::LETTER, T3::LETTER, T4::LETTER, T5::LETTER, T6::LETTER];
        assert(letters@ =~= seq![T1::LETTER, T2::LETTER, T3::LETTER, T4::LETTER, T5::LETTER, T6::LETTER]);
        letters
    }
}

/// A list of identifiers that could be present in the string of the parameter in any order.
///
/// # Examples
/// ```
/// # use firmware_core::printer::components::g_code::parameters::identifier::*;
/// #
/// assert_eq!(AnyWithoutSpaces::<(X, Y, Z)>::default().is_this("XY").unwrap(), 2);
/// assert_eq!(AnyWithoutSpaces::<(X, Y, Z)>::default().is_this("AH"), Err(()));
/// assert_eq!(AnyWithoutSpaces::<(X, Y, Z)>::default().is_this("Z").unwrap(), 1);
/// assert_eq!(AnyWithoutSpaces::<(X, Y, Z)>::default().is_this("ZYX").unwrap(), 3);
/// assert_eq!(AnyWithoutSpaces::<(X, Y, Z)>::default().is_this("ZYAHX").unwrap(), 3);
/// ```
#[derive(Debug)]
pub struct AnyWithoutSpaces<T: IdentifierInGroup>(u16, PhantomData<T>);

impl<T: IdentifierInGroup> Clone for AnyWithoutSpaces<T> {
    fn clone(&self) -> (cloned: Self)
        ensures
            cloned@ == self@,
    {
        AnyWithoutSpaces(self.0, PhantomData)
    }
}

impl<T: IdentifierInGroup> Copy for AnyWithoutSpaces<T> {

}

impl<T: IdentifierInGroup> View for AnyWithoutSpaces<T> {
    type V = u16;

    /// The bits of the identifiers of the group found by the last [`GCodeParameterIdentifier::is_this`].
    closed spec fn view(&self) -> u16 {
        self.0
    }
}

impl<T: IdentifierInGroup> Default for AnyWithoutSpaces<T> {
    fn default() -> (identifier: Self)
        ensures
            identifier@ == 0,
    {
        AnyWithoutSpaces(0, PhantomData)
    }
}

impl<T: IdentifierInGroup> AnyWithoutSpaces<T> {
    /// Returns `true` if the identifier of type `I` is present in the string you provided to
    /// [`GCodeParameterIdentifier::is_this`] before calling this function, otherwise returns `false`.
    ///
    /// # Examples
    /// ```
    /// # use firmware_core::printer::components::g_code::parameters::identifier::*;
    /// #
    /// let mut identifier = AnyWithoutSpaces::<(X, Y, Z)>::default();
    /// let _ = identifier.is_this("XY");
    /// assert!(identifier.is_identifier_present::<X>());
    /// assert!(identifier.is_identifier_present::<Y>());
    /// assert!(!identifier.is_identifier_present::<Z>());
    /// assert!(!identifier.is_identifier_present::<F>());
    /// ```
    pub fn is_identifier_present<I: GCodeParameterIdentifierLetter>(&self) -> (present: bool)
        ensures
            present == spec_is_present(T::spec_letters(), I::LETTER, self@),
    {
        T::is_identifier_present::<I>(self.0)
    }

    /// Returns `true` if any of the identifiers in contained in the generics of this struct (`T`) is
    /// present in the string you provided to [`GCodeParameterIdentifier::is_this`] before calling
    /// this function, otherwise returns `false`.
    ///
    /// # Examples
    /// ```
    /// # use firmware_core::printer::components::g_code::parameters::identifier::*;
    /// #
    /// let mut identifier = AnyWithoutSpaces::<(X, Y, Z)>::default();
    /// let _ = identifier.is_this("XY");
    /// assert!(identifier.is_any_present());   // Both the X and the Y are present in "XY"
    ///
    /// let mut identifier = AnyWithoutSpaces::<(X, Y, Z)>::default();
    /// let _ = identifier.is_this("AH");
    /// assert!(!identifier.is_any_present());  // Neither the X, nor the Y, nor the Z are present in "AH"
    /// ```
    pub fn is_any_present(&self) -> (present: bool)
        ensures
            present == (self@ != 0),
    {
        self.0 != 0
    }
}

impl<T: IdentifierInGroup> GCodeParameterIdentifier for AnyWithoutSpaces<T> {
    open spec fn spec_can_check(string: Seq<u8>) -> bool {
        true
    }

    fn is_this(&mut self, string: &str) -> (result: Result<usize, ()>)
        ensures
            final(self)@ == spec_group_mask(T::spec_letters(), string.spec_bytes()),
            result == (if final(self)@ == 0 {
                Err::<usize, ()>(())
            } else {
                Ok(spec_group_count(T::spec_letters(), string.spec_bytes()) as usize)
            }),
    {
        let (bits_mask, chars_count) = T::is_this(string);
        self.0 = bits_mask;
        if bits_mask == 0 {
            Err(())
        } else {
            Ok(chars_count)
        }
    }
}

} // verus!
