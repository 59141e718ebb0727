//! A small message-passing demonstration library: a worker pipeline that
//! answers each integer sent to it with its successor until a sentinel
//! arrives, together with a handful of self-contained numeric exercises
//! (fizz-buzz divisibility, summing multiples, even Fibonacci numbers,
//! largest prime factors) and a toy monster-battle data model.

pub mod euler;
pub mod fizzbuzz;
pub mod monsters;
pub mod pipeline;
pub mod primes;
pub mod tour;
