# community_simulation

The verified core of an agent-based economic simulation, written in Verus.

`src/` holds the logic whose behaviour is proved: component storage, preset
names, credit-score bookkeeping and tiers, kinds of crises, resources,
insurance and events, contract and investment schedules, lending offer rules,
invariant reports and the invariant checker (proved to check the registered
invariants in order and to report their outcomes exactly; what each
invariant's own check decides is up to its implementer), shell-name parsing, the trading
network (built on petgraph) with its degrees and components, breadth-first
shortest paths with predecessors and path counts (the integer part of the
betweenness measure), and the bookkeeping of causal comparisons.

In strict mode the checker returns the first violation as an error, which
`app/` turns into the panic a simulation stops on.

`app/` holds what computes with floating-point money, prices, rates and
statistics, or performs I/O: it calls the verified library for every decision
that does not depend on a floating-point value.

`tests/` runs the library on concrete values.
