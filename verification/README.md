# avanza_ghostfolio

Imports Avanza funds into a Ghostfolio database. The verified library in
`src/` computes what the service sends and stores: the JSON documents for a
fund's countries, sectors and scraper settings, the SQL that inserts a
symbol profile, the ticker list read from a CSV export, the tickers chosen
for lookup, and the request bodies and URLs for Avanza. `app/` is the Rocket
web service around it: HTTP, the database and the templates.
